//! The shortcut grammar: parsing a textual description such as
//! `"Ctrl+Shift+O"` into a structured key combination.
//!
//! A shortcut text is zero or more modifier tokens followed by exactly one
//! terminal key token, the tokens separated by `'+'`. Tokens are matched
//! without regard to ASCII case; the terminal key is a single letter or
//! digit, a function key `F1` to `F12`, or one of the named keys space,
//! enter, tab and escape. Whitespace is not trimmed: a token holding a
//! space is not recognized. The grammar is defined by [`spec_parse`];
//! the executable [`parse`] is proved to decide exactly that grammar.

use vstd::prelude::*;
use crate::chars::{eq_ci, is_digit_char, letter_key, lower_char, spec_letter_key, str_eq_ci};

verus! {

/// The set of modifier keys held together with the terminal key.
#[derive(Clone, Copy, PartialEq, Eq, Structural, Debug)]
pub struct Modifiers {
    pub ctrl: bool,
    pub shift: bool,
    pub alt: bool,
    pub meta: bool,
}

/// One modifier named by a single token of the shortcut text.
#[derive(Clone, Copy, PartialEq, Eq, Structural, Debug)]
pub enum ModFlag {
    Ctrl,
    Shift,
    Alt,
    Meta,
}

/// The terminal key of a combination, held in canonical form:
/// letters upper-case, digits as themselves, function keys by number.
#[derive(Clone, Copy, PartialEq, Eq, Structural, Debug)]
pub enum Key {
    Letter(char),
    Digit(char),
    Function(u8),
    Space,
    Enter,
    Tab,
    Escape,
}

/// A parsed key combination: modifier set plus terminal key.
#[derive(Clone, Copy, PartialEq, Eq, Structural, Debug)]
pub struct KeyCombination {
    pub mods: Modifiers,
    pub key: Key,
}

/// A rejected shortcut text, carried verbatim so the caller can name it.
#[derive(Clone, Debug)]
pub struct ParseError {
    pub input: String,
}

/// The key is in canonical form.
pub open spec fn key_wf(k: Key) -> bool {
    match k {
        Key::Letter(c) => spec_letter_key(c) == Some(c),
        Key::Digit(c) => is_digit_char(c),
        Key::Function(d) => 1 <= d <= 12,
        Key::Space => true,
        Key::Enter => true,
        Key::Tab => true,
        Key::Escape => true,
    }
}

/// The combination's key is in canonical form.
pub open spec fn combo_wf(c: KeyCombination) -> bool {
    key_wf(c.key)
}

/// The empty modifier set.
pub open spec fn no_mods() -> Modifiers {
    Modifiers { ctrl: false, shift: false, alt: false, meta: false }
}

/// `m` with the modifier named by `f` switched on.
pub open spec fn with_flag(m: Modifiers, f: ModFlag) -> Modifiers {
    match f {
        ModFlag::Ctrl => Modifiers { ctrl: true, ..m },
        ModFlag::Shift => Modifiers { shift: true, ..m },
        ModFlag::Alt => Modifiers { alt: true, ..m },
        ModFlag::Meta => Modifiers { meta: true, ..m },
    }
}

/// Executable twin of [`with_flag`].
pub fn set_flag(m: Modifiers, f: ModFlag) -> (r: Modifiers)
    ensures
        r == with_flag(m, f),
{
    match f {
        ModFlag::Ctrl => Modifiers { ctrl: true, ..m },
        ModFlag::Shift => Modifiers { shift: true, ..m },
        ModFlag::Alt => Modifiers { alt: true, ..m },
        ModFlag::Meta => Modifiers { meta: true, ..m },
    }
}

pub open spec fn word_ctrl() -> Seq<char> {
    seq!['c', 't', 'r', 'l']
}

pub open spec fn word_control() -> Seq<char> {
    seq!['c', 'o', 'n', 't', 'r', 'o', 'l']
}

pub open spec fn word_shift() -> Seq<char> {
    seq!['s', 'h', 'i', 'f', 't']
}

pub open spec fn word_alt() -> Seq<char> {
    seq!['a', 'l', 't']
}

pub open spec fn word_option() -> Seq<char> {
    seq!['o', 'p', 't', 'i', 'o', 'n']
}

pub open spec fn word_super() -> Seq<char> {
    seq!['s', 'u', 'p', 'e', 'r']
}

pub open spec fn word_cmd() -> Seq<char> {
    seq!['c', 'm', 'd']
}

pub open spec fn word_command() -> Seq<char> {
    seq!['c', 'o', 'm', 'm', 'a', 'n', 'd']
}

pub open spec fn word_meta() -> Seq<char> {
    seq!['m', 'e', 't', 'a']
}

pub open spec fn word_win() -> Seq<char> {
    seq!['w', 'i', 'n']
}

pub open spec fn word_windows() -> Seq<char> {
    seq!['w', 'i', 'n', 'd', 'o', 'w', 's']
}

/// The modifier a token names, compared without regard to ASCII case.
pub open spec fn spec_modifier_of(t: Seq<char>) -> Option<ModFlag> {
    if eq_ci(t, word_ctrl()) || eq_ci(t, word_control()) {
        Some(ModFlag::Ctrl)
    } else if eq_ci(t, word_shift()) {
        Some(ModFlag::Shift)
    } else if eq_ci(t, word_alt()) || eq_ci(t, word_option()) {
        Some(ModFlag::Alt)
    } else if eq_ci(t, word_super()) || eq_ci(t, word_cmd()) || eq_ci(t, word_command())
        || eq_ci(t, word_meta()) || eq_ci(t, word_win()) || eq_ci(t, word_windows()) {
        Some(ModFlag::Meta)
    } else {
        None
    }
}

pub open spec fn word_space() -> Seq<char> {
    seq!['s', 'p', 'a', 'c', 'e']
}

pub open spec fn word_enter() -> Seq<char> {
    seq!['e', 'n', 't', 'e', 'r']
}

pub open spec fn word_tab() -> Seq<char> {
    seq!['t', 'a', 'b']
}

pub open spec fn word_escape() -> Seq<char> {
    seq!['e', 's', 'c', 'a', 'p', 'e']
}

/// `c` opens a function-key token.
pub open spec fn is_fchar(c: char) -> bool {
    c == 'f' || c == 'F'
}

/// The function key a digit names in a two-character token (`F1` to
/// `F9`), or 0 for any other character.
pub open spec fn fkey_digit(c: char) -> u8 {
    match c {
        '1' => 1,
        '2' => 2,
        '3' => 3,
        '4' => 4,
        '5' => 5,
        '6' => 6,
        '7' => 7,
        '8' => 8,
        '9' => 9,
        _ => 0,
    }
}

/// The function key a final digit names in a three-character token
/// (`F10` to `F12`), or 0 for any other character.
pub open spec fn fkey_teen(c: char) -> u8 {
    match c {
        '0' => 10,
        '1' => 11,
        '2' => 12,
        _ => 0,
    }
}

/// The named key a token names, compared without regard to ASCII case.
pub open spec fn spec_named_key(t: Seq<char>) -> Option<Key> {
    if eq_ci(t, word_space()) {
        Some(Key::Space)
    } else if eq_ci(t, word_enter()) {
        Some(Key::Enter)
    } else if eq_ci(t, word_tab()) {
        Some(Key::Tab)
    } else if eq_ci(t, word_escape()) {
        Some(Key::Escape)
    } else {
        None
    }
}

/// The terminal key a token names: a single letter (either case) or
/// digit, a function key `F1` to `F12`, or a named key.
pub open spec fn spec_key_of(t: Seq<char>) -> Option<Key> {
    if t.len() == 1 {
        if is_digit_char(t[0]) {
            Some(Key::Digit(t[0]))
        } else {
            match spec_letter_key(t[0]) {
                Some(u) => Some(Key::Letter(u)),
                None => None,
            }
        }
    } else if t.len() == 2 && is_fchar(t[0]) && fkey_digit(t[1]) != 0 {
        Some(Key::Function(fkey_digit(t[1])))
    } else if t.len() == 3 && is_fchar(t[0]) && t[1] == '1' && fkey_teen(t[2]) != 0 {
        Some(Key::Function(fkey_teen(t[2])))
    } else {
        spec_named_key(t)
    }
}

/// Index of the first `'+'` in `s`, or `s.len()` if there is none.
pub open spec fn first_plus(s: Seq<char>) -> int
    decreases s.len(),
{
    if s.len() == 0 {
        0
    } else if s[0] == '+' {
        0
    } else {
        1 + first_plus(s.skip(1))
    }
}

/// The shortcut grammar: the text up to the first `'+'` must be a
/// modifier token and the remainder must itself parse; a text without
/// `'+'` must be a terminal key token.
pub open spec fn spec_parse(s: Seq<char>) -> Option<KeyCombination>
    decreases s.len(),
{
    let i = first_plus(s);
    if i == s.len() {
        match spec_key_of(s) {
            Some(k) => Some(KeyCombination { mods: no_mods(), key: k }),
            None => None,
        }
    } else if 0 <= i && i + 1 <= s.len() {
        let tok = s.take(i);
        let rest = s.skip(i + 1);
        match spec_modifier_of(tok) {
            Some(f) => match spec_parse(rest) {
                Some(c) => Some(KeyCombination { mods: with_flag(c.mods, f), key: c.key }),
                None => None,
            },
            None => None,
        }
    } else {
        None
    }
}

pub proof fn lemma_first_plus_bounds(s: Seq<char>)
    ensures
        0 <= first_plus(s) <= s.len(),
        forall|k: int| 0 <= k < first_plus(s) ==> s[k] != '+',
        first_plus(s) < s.len() ==> s[first_plus(s)] == '+',
    decreases s.len(),
{
    if s.len() == 0 {
    } else if s[0] == '+' {
    } else {
        lemma_first_plus_bounds(s.skip(1));
        assert forall|k: int| 0 <= k < first_plus(s) implies s[k] != '+' by {
            if k > 0 {
                assert(s.skip(1)[k - 1] == s[k]);
            }
        }
        if first_plus(s) < s.len() {
            assert(s.skip(1)[first_plus(s) - 1] == s[first_plus(s)]);
        }
    }
}

/// A position clear of `'+'` on its left and holding `'+'` (or the end)
/// itself is the first `'+'`.
pub proof fn lemma_first_plus_is(s: Seq<char>, i: int)
    requires
        0 <= i <= s.len(),
        forall|k: int| 0 <= k < i ==> s[k] != '+',
        i < s.len() ==> s[i] == '+',
    ensures
        first_plus(s) == i,
    decreases s.len(),
{
    if s.len() == 0 {
    } else if s[0] == '+' {
        assert(i == 0);
    } else {
        assert(i > 0);
        assert forall|k: int| 0 <= k < i - 1 implies s.skip(1)[k] != '+' by {
            assert(s.skip(1)[k] == s[k + 1]);
        }
        if i - 1 < s.len() - 1 {
            assert(s.skip(1)[i - 1] == s[i]);
        }
        lemma_first_plus_is(s.skip(1), i - 1);
    }
}

/// Whatever the grammar accepts is in canonical form.
pub proof fn lemma_spec_parse_wf(s: Seq<char>)
    ensures
        spec_parse(s) matches Some(c) ==> combo_wf(c),
    decreases s.len(),
{
    let i = first_plus(s);
    if i == s.len() {
    } else if 0 <= i && i + 1 <= s.len() {
        lemma_spec_parse_wf(s.skip(i + 1));
    }
}

/// Executable twin of [`spec_named_key`].
fn named_key(t: &str) -> (r: Option<Key>)
    ensures
        r == spec_named_key(t@),
{
    proof {
        reveal_strlit("space");
        reveal_strlit("enter");
        reveal_strlit("tab");
        reveal_strlit("escape");
        assert("space"@ =~= word_space());
        assert("enter"@ =~= word_enter());
        assert("tab"@ =~= word_tab());
        assert("escape"@ =~= word_escape());
    }
    if str_eq_ci(t, "space") {
        Some(Key::Space)
    } else if str_eq_ci(t, "enter") {
        Some(Key::Enter)
    } else if str_eq_ci(t, "tab") {
        Some(Key::Tab)
    } else if str_eq_ci(t, "escape") {
        Some(Key::Escape)
    } else {
        None
    }
}

/// Executable twin of [`spec_key_of`].
pub fn key_of(t: &str) -> (r: Option<Key>)
    ensures
        r == spec_key_of(t@),
{
    let n = t.unicode_len();
    if n == 1 {
        let c = t.get_char(0);
        let u = c as u32;
        if 48 <= u && u <= 57 {
            Some(Key::Digit(c))
        } else {
            match letter_key(c) {
                Some(up) => Some(Key::Letter(up)),
                None => None,
            }
        }
    } else if n == 2 {
        let c0 = t.get_char(0);
        let c1 = t.get_char(1);
        let d = fkey_digit_of(c1);
        if (c0 == 'f' || c0 == 'F') && d != 0 {
            Some(Key::Function(d))
        } else {
            named_key(t)
        }
    } else if n == 3 {
        let c0 = t.get_char(0);
        let c1 = t.get_char(1);
        let c2 = t.get_char(2);
        let d = fkey_teen_of(c2);
        if (c0 == 'f' || c0 == 'F') && c1 == '1' && d != 0 {
            Some(Key::Function(d))
        } else {
            named_key(t)
        }
    } else {
        named_key(t)
    }
}

/// Executable twin of [`fkey_digit`].
fn fkey_digit_of(c: char) -> (r: u8)
    ensures
        r == fkey_digit(c),
{
    match c {
        '1' => 1,
        '2' => 2,
        '3' => 3,
        '4' => 4,
        '5' => 5,
        '6' => 6,
        '7' => 7,
        '8' => 8,
        '9' => 9,
        _ => 0,
    }
}

/// Executable twin of [`fkey_teen`].
fn fkey_teen_of(c: char) -> (r: u8)
    ensures
        r == fkey_teen(c),
{
    match c {
        '0' => 10,
        '1' => 11,
        '2' => 12,
        _ => 0,
    }
}

/// Executable twin of [`spec_modifier_of`].
pub fn modifier_of(t: &str) -> (r: Option<ModFlag>)
    ensures
        r == spec_modifier_of(t@),
{
    proof {
        reveal_strlit("ctrl");
        reveal_strlit("control");
        reveal_strlit("shift");
        reveal_strlit("alt");
        reveal_strlit("option");
        reveal_strlit("super");
        reveal_strlit("cmd");
        reveal_strlit("command");
        reveal_strlit("meta");
        reveal_strlit("win");
        reveal_strlit("windows");
        assert("ctrl"@ =~= word_ctrl());
        assert("control"@ =~= word_control());
        assert("shift"@ =~= word_shift());
        assert("alt"@ =~= word_alt());
        assert("option"@ =~= word_option());
        assert("super"@ =~= word_super());
        assert("cmd"@ =~= word_cmd());
        assert("command"@ =~= word_command());
        assert("meta"@ =~= word_meta());
        assert("win"@ =~= word_win());
        assert("windows"@ =~= word_windows());
    }
    if str_eq_ci(t, "ctrl") || str_eq_ci(t, "control") {
        Some(ModFlag::Ctrl)
    } else if str_eq_ci(t, "shift") {
        Some(ModFlag::Shift)
    } else if str_eq_ci(t, "alt") || str_eq_ci(t, "option") {
        Some(ModFlag::Alt)
    } else if str_eq_ci(t, "super") || str_eq_ci(t, "cmd") || str_eq_ci(t, "command")
        || str_eq_ci(t, "meta") || str_eq_ci(t, "win") || str_eq_ci(t, "windows") {
        Some(ModFlag::Meta)
    } else {
        None
    }
}

/// Parse a shortcut text. Returns the combination the grammar assigns to
/// the text, or an error naming the rejected text.
pub fn parse(s: &str) -> (r: Result<KeyCombination, ParseError>)
    ensures
        match r {
            Ok(c) => spec_parse(s@) == Some(c) && combo_wf(c),
            Err(e) => spec_parse(s@) is None && e.input@ == s@,
        },
    decreases s@.len(),
{
    proof {
        lemma_spec_parse_wf(s@);
    }
    let n = s.unicode_len();
    let mut i: usize = 0;
    while i < n && s.get_char(i) != '+'
        invariant
            n == s@.len(),
            i <= n,
            forall|k: int| 0 <= k < i ==> s@[k] != '+',
        decreases n - i,
    {
        i += 1;
    }
    proof {
        lemma_first_plus_is(s@, i as int);
    }
    if i == n {
        match key_of(s) {
            Some(k) => Ok(KeyCombination {
                mods: Modifiers { ctrl: false, shift: false, alt: false, meta: false },
                key: k,
            }),
            None => Err(ParseError { input: s.to_owned() }),
        }
    } else {
        let tok = s.substring_char(0, i);
        let rest = s.substring_char(i + 1, n);
        proof {
            assert(tok@ =~= s@.take(i as int));
            assert(rest@ =~= s@.skip(i as int + 1));
        }
        match modifier_of(tok) {
            Some(f) => match parse(rest) {
                Ok(c) => Ok(KeyCombination { mods: set_flag(c.mods, f), key: c.key }),
                Err(_) => Err(ParseError { input: s.to_owned() }),
            },
            None => Err(ParseError { input: s.to_owned() }),
        }
    }
}

/// A text is a valid shortcut exactly when the grammar accepts it.
pub open spec fn valid_shortcut(s: Seq<char>) -> bool {
    spec_parse(s) is Some
}

/// The token of a function key in canonical form.
pub open spec fn fkey_text(d: u8) -> Seq<char> {
    match d {
        1 => seq!['F', '1'],
        2 => seq!['F', '2'],
        3 => seq!['F', '3'],
        4 => seq!['F', '4'],
        5 => seq!['F', '5'],
        6 => seq!['F', '6'],
        7 => seq!['F', '7'],
        8 => seq!['F', '8'],
        9 => seq!['F', '9'],
        10 => seq!['F', '1', '0'],
        11 => seq!['F', '1', '1'],
        _ => seq!['F', '1', '2'],
    }
}

/// The token of a terminal key in canonical form.
pub open spec fn key_text(k: Key) -> Seq<char> {
    match k {
        Key::Letter(c) => seq![c],
        Key::Digit(c) => seq![c],
        Key::Function(d) => fkey_text(d),
        Key::Space => word_space(),
        Key::Enter => word_enter(),
        Key::Tab => word_tab(),
        Key::Escape => word_escape(),
    }
}

/// A canonical text for a combination: its modifiers in the fixed order
/// ctrl, shift, alt, super, then the terminal key, joined by `'+'`.
pub open spec fn canon_text(c: KeyCombination) -> Seq<char> {
    let s1 = key_text(c.key);
    let s2 = if c.mods.meta { word_super() + seq!['+'] + s1 } else { s1 };
    let s3 = if c.mods.alt { word_alt() + seq!['+'] + s2 } else { s2 };
    let s4 = if c.mods.shift { word_shift() + seq!['+'] + s3 } else { s3 };
    if c.mods.ctrl { word_ctrl() + seq!['+'] + s4 } else { s4 }
}

/// A canonical key token parses to exactly that key with no modifiers.
proof fn lemma_parse_key(k: Key)
    requires
        key_wf(k),
    ensures
        spec_parse(key_text(k)) == Some(KeyCombination { mods: no_mods(), key: k }),
{
    let s = key_text(k);
    match k {
        Key::Letter(_) | Key::Digit(_) => {
            assert(s.len() == 1);
            assert(s[0] != '+');
            lemma_first_plus_is(s, 1);
            assert(spec_key_of(s) == Some(k));
        },
        Key::Function(d) => {
            assert(forall|j: int| 0 <= j < s.len() ==> s[j] != '+');
            lemma_first_plus_is(s, s.len() as int);
            assert(spec_key_of(s) == Some(k));
        },
        Key::Space | Key::Enter | Key::Tab | Key::Escape => {
            assert(forall|j: int| 0 <= j < s.len() ==> s[j] != '+');
            lemma_first_plus_is(s, s.len() as int);
            if k == Key::Enter && eq_ci(word_enter(), word_space()) {
                assert(lower_char(word_enter()[0]) == lower_char(word_space()[0]));
                assert(false);
            }
            assert(spec_key_of(s) == Some(k));
        },
    }
}

/// Parsing distributes over prepending a modifier token and a `'+'`.
proof fn lemma_parse_prepend(w: Seq<char>, f: ModFlag, s: Seq<char>, c: KeyCombination)
    requires
        spec_modifier_of(w) == Some(f),
        forall|k: int| 0 <= k < w.len() ==> w[k] != '+',
        spec_parse(s) == Some(c),
    ensures
        spec_parse(w + seq!['+'] + s) == Some(
            KeyCombination { mods: with_flag(c.mods, f), key: c.key },
        ),
{
    let full = w + seq!['+'] + s;
    let wl = w.len() as int;
    assert(full.len() == wl + 1 + s.len());
    assert(full[wl] == '+');
    lemma_first_plus_is(full, wl);
    assert(full.take(wl) =~= w);
    assert(full.skip(wl + 1) =~= s);
}

/// Each modifier word names its modifier and holds no `'+'`.
proof fn lemma_modifier_words()
    ensures
        spec_modifier_of(word_ctrl()) == Some(ModFlag::Ctrl),
        spec_modifier_of(word_shift()) == Some(ModFlag::Shift),
        spec_modifier_of(word_alt()) == Some(ModFlag::Alt),
        spec_modifier_of(word_super()) == Some(ModFlag::Meta),
        forall|k: int| 0 <= k < word_ctrl().len() ==> word_ctrl()[k] != '+',
        forall|k: int| 0 <= k < word_shift().len() ==> word_shift()[k] != '+',
        forall|k: int| 0 <= k < word_alt().len() ==> word_alt()[k] != '+',
        forall|k: int| 0 <= k < word_super().len() ==> word_super()[k] != '+',
{
    assert(eq_ci(word_ctrl(), word_ctrl()));
    assert(eq_ci(word_shift(), word_shift()));
    assert(eq_ci(word_alt(), word_alt()));
    assert(eq_ci(word_super(), word_super()));
    if eq_ci(word_super(), word_shift()) {
        assert(lower_char(word_super()[1]) == lower_char(word_shift()[1]));
        assert(false);
    }
}

/// Law: every well-formed key combination has a textual form — its
/// canonical text — that the grammar parses back to exactly that
/// combination. Together with [`parse`]'s contract: `parse` succeeds on
/// every valid text and what it returns round-trips.
pub proof fn lemma_parse_canon(c: KeyCombination)
    requires
        combo_wf(c),
    ensures
        spec_parse(canon_text(c)) == Some(c),
{
    lemma_modifier_words();
    let s1 = key_text(c.key);
    let c1 = KeyCombination { mods: no_mods(), key: c.key };
    lemma_parse_key(c.key);
    assert(spec_parse(s1) == Some(c1));

    let s2 = if c.mods.meta { word_super() + seq!['+'] + s1 } else { s1 };
    let c2 = if c.mods.meta {
        KeyCombination { mods: with_flag(c1.mods, ModFlag::Meta), key: c.key }
    } else {
        c1
    };
    if c.mods.meta {
        lemma_parse_prepend(word_super(), ModFlag::Meta, s1, c1);
    }
    assert(spec_parse(s2) == Some(c2));

    let s3 = if c.mods.alt { word_alt() + seq!['+'] + s2 } else { s2 };
    let c3 = if c.mods.alt {
        KeyCombination { mods: with_flag(c2.mods, ModFlag::Alt), key: c.key }
    } else {
        c2
    };
    if c.mods.alt {
        lemma_parse_prepend(word_alt(), ModFlag::Alt, s2, c2);
    }
    assert(spec_parse(s3) == Some(c3));

    let s4 = if c.mods.shift { word_shift() + seq!['+'] + s3 } else { s3 };
    let c4 = if c.mods.shift {
        KeyCombination { mods: with_flag(c3.mods, ModFlag::Shift), key: c.key }
    } else {
        c3
    };
    if c.mods.shift {
        lemma_parse_prepend(word_shift(), ModFlag::Shift, s3, c3);
    }
    assert(spec_parse(s4) == Some(c4));

    let s5 = if c.mods.ctrl { word_ctrl() + seq!['+'] + s4 } else { s4 };
    let c5 = if c.mods.ctrl {
        KeyCombination { mods: with_flag(c4.mods, ModFlag::Ctrl), key: c.key }
    } else {
        c4
    };
    if c.mods.ctrl {
        lemma_parse_prepend(word_ctrl(), ModFlag::Ctrl, s4, c4);
    }
    assert(spec_parse(s5) == Some(c5));

    assert(s5 == canon_text(c));
    assert(c5.mods == c.mods);
    assert(c5 == c);
}

} // verus!
