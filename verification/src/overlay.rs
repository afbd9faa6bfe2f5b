//! Decisions the two action callbacks and the tray menu make, separated
//! from the window, clipboard and navigation calls that carry them out:
//! whether a toggle shows or hides the overlay, what a clipboard text
//! means for the paste-inject action, and the path a navigation request
//! normalizes to.

use vstd::prelude::*;
use crate::chars::{is_ws_char, ws};
use crate::codec::{lemma_skip_ws_is, skip_ws_exec, skip_ws_from};

verus! {

/// What a toggle request does to the overlay window.
#[derive(Clone, Copy, PartialEq, Eq, Structural, Debug)]
pub enum OverlayCommand {
    Show,
    Hide,
}

/// A visible overlay is hidden; a hidden one is shown (and focused by
/// the caller).
pub fn toggle_command(visible: bool) -> (r: OverlayCommand)
    ensures
        r == (if visible {
            OverlayCommand::Hide
        } else {
            OverlayCommand::Show
        }),
{
    if visible {
        OverlayCommand::Hide
    } else {
        OverlayCommand::Show
    }
}

/// What the paste-inject action does with a clipboard text: show the
/// overlay and deliver the trimmed text to the asset field, or only show
/// the overlay when nothing but whitespace was read.
#[derive(Debug)]
pub enum PastePlan {
    ShowOnly,
    SetField(String),
}

/// Position that ends the whitespace run reaching back from `j`.
pub open spec fn ws_run_start(s: Seq<char>, j: int) -> int
    decreases j,
{
    if 0 < j <= s.len() && is_ws_char(s[j - 1]) {
        ws_run_start(s, j - 1)
    } else {
        j
    }
}

/// `text` with leading and trailing whitespace removed.
pub open spec fn spec_trim(s: Seq<char>) -> Seq<char> {
    let a = skip_ws_from(s, 0);
    let b = ws_run_start(s, s.len() as int);
    if a <= b {
        s.subrange(a, b)
    } else {
        Seq::empty()
    }
}

/// A stretch of whitespace reaching back from `i` to `j` pins down
/// `ws_run_start`.
proof fn lemma_ws_run_start_is(s: Seq<char>, i: int, j: int)
    requires
        0 <= j <= i <= s.len(),
        forall|k: int| j <= k < i ==> is_ws_char(s[k]),
        j > 0 ==> !is_ws_char(s[j - 1]),
    ensures
        ws_run_start(s, i) == j,
    decreases i - j,
{
    if j < i {
        lemma_ws_run_start_is(s, i - 1, j);
    }
}

/// Decide the paste-inject action for a clipboard text.
pub fn paste_plan(text: &str) -> (r: PastePlan)
    ensures
        match r {
            PastePlan::ShowOnly => spec_trim(text@).len() == 0,
            PastePlan::SetField(v) => v@ == spec_trim(text@) && v@.len() > 0,
        },
{
    let n = text.unicode_len();
    let a = skip_ws_exec(text, 0);
    let mut b = n;
    while b > 0 && ws(text.get_char(b - 1))
        invariant
            b <= n,
            n == text@.len(),
            forall|k: int| b <= k < n ==> is_ws_char(text@[k]),
        decreases b,
    {
        b -= 1;
    }
    proof {
        lemma_ws_run_start_is(text@, n as int, b as int);
    }
    if a < b {
        let v = text.substring_char(a, b).to_owned();
        proof {
            assert(v@ =~= spec_trim(text@));
        }
        PastePlan::SetField(v)
    } else {
        PastePlan::ShowOnly
    }
}

/// First position at or after `i` that does not hold `'/'`.
pub open spec fn first_non_slash(s: Seq<char>, i: int) -> int
    decreases s.len() - i,
{
    if 0 <= i < s.len() && s[i] == '/' {
        first_non_slash(s, i + 1)
    } else {
        i
    }
}

/// The in-app path a navigation request goes to: one leading slash,
/// however many the request carried.
pub open spec fn spec_nav_path(s: Seq<char>) -> Seq<char> {
    seq!['/'] + s.skip(first_non_slash(s, 0))
}

/// A stretch of slashes from `i` that stops at `j` pins down
/// `first_non_slash`.
proof fn lemma_first_non_slash_is(s: Seq<char>, i: int, j: int)
    requires
        0 <= i <= j <= s.len(),
        forall|k: int| i <= k < j ==> s[k] == '/',
        j < s.len() ==> s[j] != '/',
    ensures
        first_non_slash(s, i) == j,
    decreases j - i,
{
    if i < j {
        lemma_first_non_slash_is(s, i + 1, j);
    }
}

/// Normalize a navigation target to a single-rooted path.
pub fn normalize_nav_path(target: &str) -> (r: String)
    ensures
        r@ == spec_nav_path(target@),
{
    let n = target.unicode_len();
    let mut i: usize = 0;
    while i < n && target.get_char(i) == '/'
        invariant
            i <= n,
            n == target@.len(),
            forall|k: int| 0 <= k < i ==> target@[k] == '/',
        decreases n - i,
    {
        i += 1;
    }
    proof {
        lemma_first_non_slash_is(target@, 0, i as int);
    }
    let mut out = String::new();
    out.append("/");
    out.append(target.substring_char(i, n));
    proof {
        reveal_strlit("/");
        assert("/"@ =~= seq!['/']);
        assert(out@ =~= spec_nav_path(target@));
    }
    out
}

} // verus!
