//! The persisted binding pair: compiled-in defaults, reading a settings
//! file's contents (degrading to the defaults on any malformed input),
//! and producing the text to persist.
//!
//! Reading and writing the file itself is the surrounding program's job;
//! this module maps file contents to settings and back.

use vstd::prelude::*;
use crate::chars::{eq_ci, is_digit_char, lower_char, spec_letter_key};
use crate::codec::{decode, encode, json_plain, json_text_of, spec_decode};
use crate::hotkey::{
    first_plus, fkey_digit, fkey_teen, is_fchar, lemma_first_plus_bounds, lemma_first_plus_is, parse, spec_key_of,
    spec_modifier_of, spec_named_key, spec_parse, valid_shortcut, word_alt, word_cmd,
    word_command, word_control, word_ctrl, word_enter, word_escape, word_meta, word_option,
    word_shift, word_space, word_super, word_tab, word_win, word_windows,
};

verus! {

/// The two-action binding pair, as persisted and as cached in memory.
#[derive(Clone, Debug)]
pub struct ShortcutSettings {
    pub toggle_overlay: String,
    pub paste_asset: String,
}

impl View for ShortcutSettings {
    type V = (Seq<char>, Seq<char>);

    open spec fn view(&self) -> (Seq<char>, Seq<char>) {
        (self.toggle_overlay@, self.paste_asset@)
    }
}

/// Both binding texts of the pair are valid shortcuts.
pub open spec fn pair_valid(v: (Seq<char>, Seq<char>)) -> bool {
    valid_shortcut(v.0) && valid_shortcut(v.1)
}

pub open spec fn default_toggle_text() -> Seq<char> {
    seq!['C', 't', 'r', 'l', '+', 'S', 'h', 'i', 'f', 't', '+', 'O']
}

pub open spec fn default_paste_text() -> Seq<char> {
    seq!['C', 't', 'r', 'l', '+', 'S', 'h', 'i', 'f', 't', '+', 'V']
}

/// The compiled-in default pair.
pub open spec fn default_pair() -> (Seq<char>, Seq<char>) {
    (default_toggle_text(), default_paste_text())
}

/// What loading yields for given file contents (`None`: no readable
/// file): the decoded pair when the text is well-formed and both
/// bindings are valid shortcuts, the defaults otherwise.
pub open spec fn spec_load(content: Option<Seq<char>>) -> (Seq<char>, Seq<char>) {
    match content {
        None => default_pair(),
        Some(s) => match spec_decode(s) {
            Some(tp) => if pair_valid(tp) {
                tp
            } else {
                default_pair()
            },
            None => default_pair(),
        },
    }
}

/// The default binding texts are themselves valid shortcuts.
pub proof fn lemma_defaults_valid()
    ensures
        pair_valid(default_pair()),
{
    let s = default_toggle_text();
    lemma_default_text_valid(s);
    let v = default_paste_text();
    lemma_default_text_valid(v);
}

/// Both default texts share the `Ctrl+Shift+` prefix; parsing either
/// succeeds because the terminal letter is valid.
proof fn lemma_default_text_valid(s: Seq<char>)
    requires
        s =~= default_toggle_text() || s =~= default_paste_text(),
    ensures
        valid_shortcut(s),
{
    assert(s[4] == '+');
    lemma_first_plus_is(s, 4);
    let tok = s.take(4);
    assert(eq_ci(tok, word_ctrl()));
    let rest = s.skip(5);
    assert(rest.len() == 7);
    assert(rest[5] == '+');
    lemma_first_plus_is(rest, 5);
    let tok2 = rest.take(5);
    assert(!eq_ci(tok2, word_ctrl()));
    assert(!eq_ci(tok2, word_control()));
    assert(eq_ci(tok2, word_shift()));
    let rest2 = rest.skip(6);
    assert(rest2.len() == 1);
    lemma_first_plus_is(rest2, 1);
    assert(spec_key_of(rest2) is Some);
    assert(spec_parse(rest2) is Some);
    assert(spec_parse(rest) is Some);
    assert(spec_parse(s) is Some);
}

/// `c` is an ASCII lower-case letter.
spec fn is_lower_letter(c: char) -> bool {
    'a' as u32 <= c as u32 && c as u32 <= 'z' as u32
}

/// A token that matches a lower-case word without regard to case holds
/// no quote and no backslash.
proof fn lemma_ci_word_plain(t: Seq<char>, w: Seq<char>)
    requires
        eq_ci(t, w),
        forall|k: int| 0 <= k < w.len() ==> is_lower_letter(w[k]),
    ensures
        forall|k: int| 0 <= k < t.len() ==> t[k] != '"' && t[k] != '\\',
{
    assert forall|k: int| 0 <= k < t.len() implies t[k] != '"' && t[k] != '\\' by {
        assert(lower_char(t[k]) == lower_char(w[k]));
        assert(is_lower_letter(w[k]));
        assert(lower_char(w[k]) == w[k]);
        if t[k] == '"' {
            assert(lower_char(t[k]) == '"');
        }
        if t[k] == '\\' {
            assert(lower_char(t[k]) == '\\');
        }
    }
}

/// A recognized key token holds no quote and no backslash.
proof fn lemma_key_token_plain(t: Seq<char>)
    requires
        spec_key_of(t) is Some,
    ensures
        forall|k: int| 0 <= k < t.len() ==> t[k] != '"' && t[k] != '\\',
{
    if t.len() == 1 {
        assert forall|k: int| 0 <= k < t.len() implies t[k] != '"' && t[k] != '\\' by {
            if is_digit_char(t[0]) {
            } else {
                assert(spec_letter_key(t[0]) is Some);
            }
        }
    } else if t.len() == 2 && is_fchar(t[0]) && fkey_digit(t[1]) != 0 {
        assert forall|k: int| 0 <= k < t.len() implies t[k] != '"' && t[k] != '\\' by {}
    } else if t.len() == 3 && is_fchar(t[0]) && t[1] == '1' && fkey_teen(t[2]) != 0 {
        assert forall|k: int| 0 <= k < t.len() implies t[k] != '"' && t[k] != '\\' by {}
    } else {
        assert(spec_named_key(t) is Some);
        assert(forall|k: int| 0 <= k < word_space().len() ==> is_lower_letter(word_space()[k]));
        assert(forall|k: int| 0 <= k < word_enter().len() ==> is_lower_letter(word_enter()[k]));
        assert(forall|k: int| 0 <= k < word_tab().len() ==> is_lower_letter(word_tab()[k]));
        assert(forall|k: int| 0 <= k < word_escape().len() ==> is_lower_letter(word_escape()[k]));
        if eq_ci(t, word_space()) {
            lemma_ci_word_plain(t, word_space());
        } else if eq_ci(t, word_enter()) {
            lemma_ci_word_plain(t, word_enter());
        } else if eq_ci(t, word_tab()) {
            lemma_ci_word_plain(t, word_tab());
        } else {
            lemma_ci_word_plain(t, word_escape());
        }
    }
}

/// A recognized modifier token holds no quote and no backslash.
proof fn lemma_modifier_token_plain(t: Seq<char>)
    requires
        spec_modifier_of(t) is Some,
    ensures
        forall|k: int| 0 <= k < t.len() ==> t[k] != '"' && t[k] != '\\',
{
    assert(forall|k: int| 0 <= k < word_ctrl().len() ==> is_lower_letter(word_ctrl()[k]));
    assert(forall|k: int| 0 <= k < word_control().len() ==> is_lower_letter(word_control()[k]));
    assert(forall|k: int| 0 <= k < word_shift().len() ==> is_lower_letter(word_shift()[k]));
    assert(forall|k: int| 0 <= k < word_alt().len() ==> is_lower_letter(word_alt()[k]));
    assert(forall|k: int| 0 <= k < word_option().len() ==> is_lower_letter(word_option()[k]));
    assert(forall|k: int| 0 <= k < word_super().len() ==> is_lower_letter(word_super()[k]));
    assert(forall|k: int| 0 <= k < word_cmd().len() ==> is_lower_letter(word_cmd()[k]));
    assert(forall|k: int| 0 <= k < word_command().len() ==> is_lower_letter(word_command()[k]));
    assert(forall|k: int| 0 <= k < word_meta().len() ==> is_lower_letter(word_meta()[k]));
    assert(forall|k: int| 0 <= k < word_win().len() ==> is_lower_letter(word_win()[k]));
    assert(forall|k: int| 0 <= k < word_windows().len() ==> is_lower_letter(word_windows()[k]));
    if eq_ci(t, word_ctrl()) {
        lemma_ci_word_plain(t, word_ctrl());
    } else if eq_ci(t, word_control()) {
        lemma_ci_word_plain(t, word_control());
    } else if eq_ci(t, word_shift()) {
        lemma_ci_word_plain(t, word_shift());
    } else if eq_ci(t, word_alt()) {
        lemma_ci_word_plain(t, word_alt());
    } else if eq_ci(t, word_option()) {
        lemma_ci_word_plain(t, word_option());
    } else if eq_ci(t, word_super()) {
        lemma_ci_word_plain(t, word_super());
    } else if eq_ci(t, word_cmd()) {
        lemma_ci_word_plain(t, word_cmd());
    } else if eq_ci(t, word_command()) {
        lemma_ci_word_plain(t, word_command());
    } else if eq_ci(t, word_meta()) {
        lemma_ci_word_plain(t, word_meta());
    } else if eq_ci(t, word_win()) {
        lemma_ci_word_plain(t, word_win());
    } else {
        lemma_ci_word_plain(t, word_windows());
    }
}

/// A valid shortcut text holds no quote and no backslash, so it can
/// stand raw inside the settings-file text.
pub proof fn lemma_valid_plain(s: Seq<char>)
    requires
        valid_shortcut(s),
    ensures
        json_plain(s),
    decreases s.len(),
{
    lemma_first_plus_bounds(s);
    let i = first_plus(s);
    if i == s.len() {
        assert(spec_key_of(s) is Some);
        lemma_key_token_plain(s);
    } else {
        let tok = s.take(i);
        let rest = s.skip(i + 1);
        assert(spec_modifier_of(tok) is Some);
        assert(valid_shortcut(rest));
        lemma_valid_plain(rest);
        lemma_modifier_token_plain(tok);
        assert forall|k: int| 0 <= k < s.len() implies s[k] != '"' && s[k] != '\\' by {
            if k < i {
                assert(s[k] == tok[k]);
            } else if k == i {
                assert(s[k] == '+');
            } else {
                assert(s[k] == rest[k - i - 1]);
            }
        }
    }
}

/// Law: saving a valid pair and loading the written text yields exactly
/// that pair.
pub proof fn lemma_save_load_round_trip(t: Seq<char>, p: Seq<char>)
    requires
        valid_shortcut(t),
        valid_shortcut(p),
    ensures
        spec_load(Some(json_text_of(t, p))) == (t, p),
{
    lemma_valid_plain(t);
    lemma_valid_plain(p);
    crate::codec::lemma_decode_encode(t, p);
}

/// The compiled-in default pair.
pub fn default_settings() -> (r: ShortcutSettings)
    ensures
        r@ == default_pair(),
        pair_valid(r@),
{
    proof {
        reveal_strlit("Ctrl+Shift+O");
        reveal_strlit("Ctrl+Shift+V");
        assert("Ctrl+Shift+O"@ =~= default_toggle_text());
        assert("Ctrl+Shift+V"@ =~= default_paste_text());
        lemma_defaults_valid();
    }
    ShortcutSettings {
        toggle_overlay: "Ctrl+Shift+O".to_owned(),
        paste_asset: "Ctrl+Shift+V".to_owned(),
    }
}

impl Default for ShortcutSettings {
    /// The compiled-in defaults.
    fn default() -> (r: Self)
        ensures
            r@ == default_pair(),
            pair_valid(r@),
    {
        default_settings()
    }
}

/// Map settings-file contents (`None`: file absent or unreadable) to the
/// pair to run with. Every malformed or invalid input degrades to the
/// defaults; this function never fails outward.
pub fn load_from_content(content: Option<&str>) -> (r: ShortcutSettings)
    ensures
        match content {
            Some(s) => r@ == spec_load(Some(s@)),
            None => r@ == spec_load(None),
        },
        pair_valid(r@),
{
    match content {
        None => default_settings(),
        Some(text) => match decode(text) {
            Some((toggle, paste)) => {
                let toggle_ok = parse(toggle.as_str()).is_ok();
                let paste_ok = parse(paste.as_str()).is_ok();
                if toggle_ok && paste_ok {
                    ShortcutSettings { toggle_overlay: toggle, paste_asset: paste }
                } else {
                    default_settings()
                }
            },
            None => default_settings(),
        },
    }
}

/// The text to persist for a valid pair. Loading this text back yields
/// the same pair.
pub fn save_content(s: &ShortcutSettings) -> (r: String)
    requires
        pair_valid(s@),
    ensures
        r@ == json_text_of(s@.0, s@.1),
        spec_load(Some(r@)) == s@,
{
    proof {
        lemma_save_load_round_trip(s@.0, s@.1);
    }
    encode(s.toggle_str(), s.paste_str())
}

impl ShortcutSettings {
    /// The toggle binding text as a slice.
    pub fn toggle_str(&self) -> (r: &str)
        ensures
            r@ == self@.0,
    {
        self.toggle_overlay.as_str()
    }

    /// The paste binding text as a slice.
    pub fn paste_str(&self) -> (r: &str)
        ensures
            r@ == self@.1,
    {
        self.paste_asset.as_str()
    }
}

} // verus!
