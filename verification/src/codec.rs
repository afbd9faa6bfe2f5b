//! The settings-file format: a JSON object with the two binding texts,
//!
//! ```text
//! {"toggle_overlay":"Ctrl+Shift+O","paste_asset":"Ctrl+Shift+V"}
//! ```
//!
//! [`encode`] produces exactly this text; [`decode`] accepts it with any
//! amount of ASCII whitespace between the tokens (so a pretty-printed
//! file is read back too) and rejects everything else. Values are raw:
//! a text holding a quote or a backslash cannot be represented, which
//! the shortcut grammar never produces.

use vstd::prelude::*;
use crate::chars::{is_ws_char, ws};

verus! {

pub open spec fn enc_prefix() -> Seq<char> {
    seq!['{', '"', 't', 'o', 'g', 'g', 'l', 'e', '_', 'o', 'v', 'e', 'r', 'l', 'a', 'y', '"', ':', '"']
}

pub open spec fn enc_mid() -> Seq<char> {
    seq!['"', ',', '"', 'p', 'a', 's', 't', 'e', '_', 'a', 's', 's', 'e', 't', '"', ':', '"']
}

pub open spec fn enc_suffix() -> Seq<char> {
    seq!['"', '}']
}

pub open spec fn quoted_toggle() -> Seq<char> {
    seq!['"', 't', 'o', 'g', 'g', 'l', 'e', '_', 'o', 'v', 'e', 'r', 'l', 'a', 'y', '"']
}

pub open spec fn quoted_paste() -> Seq<char> {
    seq!['"', 'p', 'a', 's', 't', 'e', '_', 'a', 's', 's', 'e', 't', '"']
}

/// The canonical settings-file text for the two binding texts.
pub open spec fn json_text_of(t: Seq<char>, p: Seq<char>) -> Seq<char> {
    enc_prefix() + t + enc_mid() + p + enc_suffix()
}

/// The text holds none of the characters that would need escaping.
pub open spec fn json_plain(s: Seq<char>) -> bool {
    forall|k: int| 0 <= k < s.len() ==> s[k] != '"' && s[k] != '\\'
}

/// First position at or after `i` holding a non-whitespace character,
/// or the end of the text.
pub open spec fn skip_ws_from(s: Seq<char>, i: int) -> int
    decreases s.len() - i,
{
    if 0 <= i < s.len() && is_ws_char(s[i]) {
        skip_ws_from(s, i + 1)
    } else {
        i
    }
}

/// `w` occurs verbatim at position `i` of `s`.
pub open spec fn lit_at(s: Seq<char>, i: int, w: Seq<char>) -> bool {
    &&& 0 <= i
    &&& i + w.len() <= s.len()
    &&& s.subrange(i, i + w.len()) == w
}

/// First position at or after `i` that ends a raw string value: a quote,
/// a backslash, or the end of the text.
pub open spec fn value_end(s: Seq<char>, i: int) -> int
    decreases s.len() - i,
{
    if 0 <= i < s.len() && s[i] != '"' && s[i] != '\\' {
        value_end(s, i + 1)
    } else {
        i
    }
}

/// The decoding relation: the two field values of a well-formed settings
/// text, or nothing. Fields must come in canonical order; whitespace is
/// free between tokens; values end at the first quote and may not hold
/// a backslash.
pub open spec fn spec_decode(s: Seq<char>) -> Option<(Seq<char>, Seq<char>)> {
    let i0 = skip_ws_from(s, 0);
    if !lit_at(s, i0, seq!['{']) {
        None
    } else {
        let i1 = skip_ws_from(s, i0 + 1);
        if !lit_at(s, i1, quoted_toggle()) {
            None
        } else {
            let i2 = skip_ws_from(s, i1 + quoted_toggle().len());
            if !lit_at(s, i2, seq![':']) {
                None
            } else {
                let i3 = skip_ws_from(s, i2 + 1);
                if !lit_at(s, i3, seq!['"']) {
                    None
                } else {
                    let v1s = i3 + 1;
                    let v1e = value_end(s, v1s);
                    if !(v1e < s.len() && s[v1e] == '"') {
                        None
                    } else {
                        let t = s.subrange(v1s, v1e);
                        let i4 = skip_ws_from(s, v1e + 1);
                        if !lit_at(s, i4, seq![',']) {
                            None
                        } else {
                            let i5 = skip_ws_from(s, i4 + 1);
                            if !lit_at(s, i5, quoted_paste()) {
                                None
                            } else {
                                let i6 = skip_ws_from(s, i5 + quoted_paste().len());
                                if !lit_at(s, i6, seq![':']) {
                                    None
                                } else {
                                    let i7 = skip_ws_from(s, i6 + 1);
                                    if !lit_at(s, i7, seq!['"']) {
                                        None
                                    } else {
                                        let v2s = i7 + 1;
                                        let v2e = value_end(s, v2s);
                                        if !(v2e < s.len() && s[v2e] == '"') {
                                            None
                                        } else {
                                            let p = s.subrange(v2s, v2e);
                                            let i8 = skip_ws_from(s, v2e + 1);
                                            if !lit_at(s, i8, seq!['}']) {
                                                None
                                            } else {
                                                let i9 = skip_ws_from(s, i8 + 1);
                                                if i9 == s.len() {
                                                    Some((t, p))
                                                } else {
                                                    None
                                                }
                                            }
                                        }
                                    }
                                }
                            }
                        }
                    }
                }
            }
        }
    }
}

/// A stretch of whitespace from `i` that stops at `j` pins down
/// `skip_ws_from`.
pub proof fn lemma_skip_ws_is(s: Seq<char>, i: int, j: int)
    requires
        0 <= i <= j <= s.len(),
        forall|k: int| i <= k < j ==> is_ws_char(s[k]),
        j < s.len() ==> !is_ws_char(s[j]),
    ensures
        skip_ws_from(s, i) == j,
    decreases j - i,
{
    if i < j {
        lemma_skip_ws_is(s, i + 1, j);
    }
}

/// A stretch of plain value characters from `i` that stops at `j` pins
/// down `value_end`.
pub proof fn lemma_value_end_is(s: Seq<char>, i: int, j: int)
    requires
        0 <= i <= j <= s.len(),
        forall|k: int| i <= k < j ==> s[k] != '"' && s[k] != '\\',
        j < s.len() ==> (s[j] == '"' || s[j] == '\\'),
    ensures
        value_end(s, i) == j,
    decreases j - i,
{
    if i < j {
        lemma_value_end_is(s, i + 1, j);
    }
}

/// Executable twin of [`skip_ws_from`].
pub fn skip_ws_exec(s: &str, i: usize) -> (j: usize)
    requires
        i <= s@.len(),
    ensures
        i <= j <= s@.len(),
        j as int == skip_ws_from(s@, i as int),
{
    let n = s.unicode_len();
    let mut j = i;
    while j < n && ws(s.get_char(j))
        invariant
            i <= j <= n,
            n == s@.len(),
            forall|k: int| i <= k < j ==> is_ws_char(s@[k]),
        decreases n - j,
    {
        j += 1;
    }
    proof {
        lemma_skip_ws_is(s@, i as int, j as int);
    }
    j
}

/// Whether `c` may stand raw inside a string value.
pub fn is_value_char(c: char) -> (r: bool)
    ensures
        r == (c != '"' && c != '\\'),
{
    c != '"' && c != '\\'
}

/// Executable twin of [`value_end`].
pub fn find_value_end(s: &str, i: usize) -> (j: usize)
    requires
        i <= s@.len(),
    ensures
        i <= j <= s@.len(),
        j as int == value_end(s@, i as int),
{
    let n = s.unicode_len();
    let mut j = i;
    while j < n && is_value_char(s.get_char(j))
        invariant
            i <= j <= n,
            n == s@.len(),
            forall|k: int| i <= k < j ==> s@[k] != '"' && s@[k] != '\\',
        decreases n - j,
    {
        j += 1;
    }
    proof {
        lemma_value_end_is(s@, i as int, j as int);
    }
    j
}

/// Check that `w` stands verbatim at position `i` of `s`; on success
/// return the position just past it.
pub fn expect_lit(s: &str, i: usize, w: &str) -> (r: Option<usize>)
    requires
        i <= s@.len(),
    ensures
        match r {
            Some(j) => lit_at(s@, i as int, w@) && j == i + w@.len() && j <= s@.len(),
            None => !lit_at(s@, i as int, w@),
        },
{
    let n = s.unicode_len();
    let m = w.unicode_len();
    if n - i < m {
        return None;
    }
    let mut k: usize = 0;
    while k < m
        invariant
            i + m <= n,
            k <= m,
            n == s@.len(),
            m == w@.len(),
            forall|q: int| 0 <= q < k ==> s@[i + q] == w@[q],
        decreases m - k,
    {
        if s.get_char(i + k) != w.get_char(k) {
            proof {
                if lit_at(s@, i as int, w@) {
                    assert(s@.subrange(i as int, i + m)[k as int] == s@[i + k]);
                }
            }
            return None;
        }
        k += 1;
    }
    proof {
        assert(s@.subrange(i as int, i + m) =~= w@);
    }
    Some(i + m)
}

/// Encode the two binding texts as the canonical settings-file text.
pub fn encode(t: &str, p: &str) -> (r: String)
    ensures
        r@ == json_text_of(t@, p@),
{
    proof {
        reveal_strlit("{\"toggle_overlay\":\"");
        reveal_strlit("\",\"paste_asset\":\"");
        reveal_strlit("\"}");
        assert("{\"toggle_overlay\":\""@ =~= enc_prefix());
        assert("\",\"paste_asset\":\""@ =~= enc_mid());
        assert("\"}"@ =~= enc_suffix());
    }
    let mut out = String::new();
    out.append("{\"toggle_overlay\":\"");
    out.append(t);
    out.append("\",\"paste_asset\":\"");
    out.append(p);
    out.append("\"}");
    proof {
        assert(out@ =~= json_text_of(t@, p@));
    }
    out
}

/// Decode a settings-file text into its two field values, or report that
/// the text is not in the settings-file format.
pub fn decode(s: &str) -> (r: Option<(String, String)>)
    ensures
        match r {
            Some(tp) => spec_decode(s@) == Some((tp.0@, tp.1@)),
            None => spec_decode(s@) is None,
        },
{
    proof {
        reveal_strlit("{");
        reveal_strlit("\"toggle_overlay\"");
        reveal_strlit(":");
        reveal_strlit("\"");
        reveal_strlit(",");
        reveal_strlit("\"paste_asset\"");
        reveal_strlit("}");
        assert("{"@ =~= seq!['{']);
        assert("\"toggle_overlay\""@ =~= quoted_toggle());
        assert(":"@ =~= seq![':']);
        assert("\""@ =~= seq!['"']);
        assert(","@ =~= seq![',']);
        assert("\"paste_asset\""@ =~= quoted_paste());
        assert("}"@ =~= seq!['}']);
    }
    let n = s.unicode_len();
    let i0 = skip_ws_exec(s, 0);
    let i0b = match expect_lit(s, i0, "{") {
        Some(j) => j,
        None => {
            return None;
        },
    };
    let i1 = skip_ws_exec(s, i0b);
    let i1b = match expect_lit(s, i1, "\"toggle_overlay\"") {
        Some(j) => j,
        None => {
            return None;
        },
    };
    let i2 = skip_ws_exec(s, i1b);
    let i2b = match expect_lit(s, i2, ":") {
        Some(j) => j,
        None => {
            return None;
        },
    };
    let i3 = skip_ws_exec(s, i2b);
    let v1s = match expect_lit(s, i3, "\"") {
        Some(j) => j,
        None => {
            return None;
        },
    };
    let v1e = find_value_end(s, v1s);
    if v1e == n {
        return None;
    }
    if s.get_char(v1e) != '"' {
        return None;
    }
    let toggle = s.substring_char(v1s, v1e).to_owned();
    let i4 = skip_ws_exec(s, v1e + 1);
    let i4b = match expect_lit(s, i4, ",") {
        Some(j) => j,
        None => {
            return None;
        },
    };
    let i5 = skip_ws_exec(s, i4b);
    let i5b = match expect_lit(s, i5, "\"paste_asset\"") {
        Some(j) => j,
        None => {
            return None;
        },
    };
    let i6 = skip_ws_exec(s, i5b);
    let i6b = match expect_lit(s, i6, ":") {
        Some(j) => j,
        None => {
            return None;
        },
    };
    let i7 = skip_ws_exec(s, i6b);
    let v2s = match expect_lit(s, i7, "\"") {
        Some(j) => j,
        None => {
            return None;
        },
    };
    let v2e = find_value_end(s, v2s);
    if v2e == n {
        return None;
    }
    if s.get_char(v2e) != '"' {
        return None;
    }
    let paste = s.substring_char(v2s, v2e).to_owned();
    let i8 = skip_ws_exec(s, v2e + 1);
    let i8b = match expect_lit(s, i8, "}") {
        Some(j) => j,
        None => {
            return None;
        },
    };
    let i9 = skip_ws_exec(s, i8b);
    if i9 != n {
        return None;
    }
    proof {
        assert(toggle@ =~= s@.subrange(v1s as int, v1e as int));
        assert(paste@ =~= s@.subrange(v2s as int, v2e as int));
    }
    Some((toggle, paste))
}

/// Law: a settings text written by [`encode`] decodes to exactly the two
/// texts it was written from, for any pair of plain texts.
pub proof fn lemma_decode_encode(t: Seq<char>, p: Seq<char>)
    requires
        json_plain(t),
        json_plain(p),
    ensures
        spec_decode(json_text_of(t, p)) == Some((t, p)),
{
    let s = json_text_of(t, p);
    let tl = t.len() as int;
    let pl = p.len() as int;
    assert(s.len() == 38 + tl + pl);
    assert forall|k: int| 0 <= k < 19 implies s[k] == enc_prefix()[k] by {}
    assert forall|k: int| 0 <= k < tl implies s[19 + k] == t[k] by {}
    assert forall|k: int| 0 <= k < 17 implies s[19 + tl + k] == enc_mid()[k] by {}
    assert forall|k: int| 0 <= k < pl implies s[36 + tl + k] == p[k] by {}
    assert forall|k: int| 0 <= k < 2 implies s[36 + tl + pl + k] == enc_suffix()[k] by {}

    lemma_skip_ws_is(s, 0, 0);
    assert(s.subrange(0, 1) =~= seq!['{']);
    lemma_skip_ws_is(s, 1, 1);
    assert(s.subrange(1, 17) =~= quoted_toggle());
    lemma_skip_ws_is(s, 17, 17);
    assert(s.subrange(17, 18) =~= seq![':']);
    lemma_skip_ws_is(s, 18, 18);
    assert(s.subrange(18, 19) =~= seq!['"']);
    lemma_value_end_is(s, 19, 19 + tl);
    assert(s[19 + tl] == '"');
    assert(s.subrange(19, 19 + tl) =~= t);
    lemma_skip_ws_is(s, 20 + tl, 20 + tl);
    assert(s.subrange(20 + tl, 21 + tl) =~= seq![',']);
    lemma_skip_ws_is(s, 21 + tl, 21 + tl);
    assert(s.subrange(21 + tl, 34 + tl) =~= quoted_paste());
    lemma_skip_ws_is(s, 34 + tl, 34 + tl);
    assert(s.subrange(34 + tl, 35 + tl) =~= seq![':']);
    lemma_skip_ws_is(s, 35 + tl, 35 + tl);
    assert(s.subrange(35 + tl, 36 + tl) =~= seq!['"']);
    lemma_value_end_is(s, 36 + tl, 36 + tl + pl);
    assert(s[36 + tl + pl] == '"');
    assert(s.subrange(36 + tl, 36 + tl + pl) =~= p);
    lemma_skip_ws_is(s, 37 + tl + pl, 37 + tl + pl);
    assert(s.subrange(37 + tl + pl, 38 + tl + pl) =~= seq!['}']);
    lemma_skip_ws_is(s, 38 + tl + pl, 38 + tl + pl);
}

} // verus!
