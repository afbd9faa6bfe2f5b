//! Character-level helpers shared by the shortcut grammar and the
//! settings-file codec: ASCII case folding, digit and whitespace tests,
//! and case-insensitive comparison of character sequences.

use vstd::prelude::*;

verus! {

/// Lower-case form of an ASCII letter; any other character is unchanged.
pub open spec fn lower_char(c: char) -> char {
    match c {
        'A' => 'a',
        'B' => 'b',
        'C' => 'c',
        'D' => 'd',
        'E' => 'e',
        'F' => 'f',
        'G' => 'g',
        'H' => 'h',
        'I' => 'i',
        'J' => 'j',
        'K' => 'k',
        'L' => 'l',
        'M' => 'm',
        'N' => 'n',
        'O' => 'o',
        'P' => 'p',
        'Q' => 'q',
        'R' => 'r',
        'S' => 's',
        'T' => 't',
        'U' => 'u',
        'V' => 'v',
        'W' => 'w',
        'X' => 'x',
        'Y' => 'y',
        'Z' => 'z',
        _ => c,
    }
}

/// Executable twin of [`lower_char`].
pub fn lower(c: char) -> (r: char)
    ensures
        r == lower_char(c),
{
    match c {
        'A' => 'a',
        'B' => 'b',
        'C' => 'c',
        'D' => 'd',
        'E' => 'e',
        'F' => 'f',
        'G' => 'g',
        'H' => 'h',
        'I' => 'i',
        'J' => 'j',
        'K' => 'k',
        'L' => 'l',
        'M' => 'm',
        'N' => 'n',
        'O' => 'o',
        'P' => 'p',
        'Q' => 'q',
        'R' => 'r',
        'S' => 's',
        'T' => 't',
        'U' => 'u',
        'V' => 'v',
        'W' => 'w',
        'X' => 'x',
        'Y' => 'y',
        'Z' => 'z',
        _ => c,
    }
}

/// The canonical (upper-case) letter that a single-character key token
/// stands for, if the character is an ASCII letter.
pub open spec fn spec_letter_key(c: char) -> Option<char> {
    match c {
        'a' | 'A' => Some('A'),
        'b' | 'B' => Some('B'),
        'c' | 'C' => Some('C'),
        'd' | 'D' => Some('D'),
        'e' | 'E' => Some('E'),
        'f' | 'F' => Some('F'),
        'g' | 'G' => Some('G'),
        'h' | 'H' => Some('H'),
        'i' | 'I' => Some('I'),
        'j' | 'J' => Some('J'),
        'k' | 'K' => Some('K'),
        'l' | 'L' => Some('L'),
        'm' | 'M' => Some('M'),
        'n' | 'N' => Some('N'),
        'o' | 'O' => Some('O'),
        'p' | 'P' => Some('P'),
        'q' | 'Q' => Some('Q'),
        'r' | 'R' => Some('R'),
        's' | 'S' => Some('S'),
        't' | 'T' => Some('T'),
        'u' | 'U' => Some('U'),
        'v' | 'V' => Some('V'),
        'w' | 'W' => Some('W'),
        'x' | 'X' => Some('X'),
        'y' | 'Y' => Some('Y'),
        'z' | 'Z' => Some('Z'),
        _ => None,
    }
}

/// Executable twin of [`spec_letter_key`].
pub fn letter_key(c: char) -> (r: Option<char>)
    ensures
        r == spec_letter_key(c),
{
    match c {
        'a' | 'A' => Some('A'),
        'b' | 'B' => Some('B'),
        'c' | 'C' => Some('C'),
        'd' | 'D' => Some('D'),
        'e' | 'E' => Some('E'),
        'f' | 'F' => Some('F'),
        'g' | 'G' => Some('G'),
        'h' | 'H' => Some('H'),
        'i' | 'I' => Some('I'),
        'j' | 'J' => Some('J'),
        'k' | 'K' => Some('K'),
        'l' | 'L' => Some('L'),
        'm' | 'M' => Some('M'),
        'n' | 'N' => Some('N'),
        'o' | 'O' => Some('O'),
        'p' | 'P' => Some('P'),
        'q' | 'Q' => Some('Q'),
        'r' | 'R' => Some('R'),
        's' | 'S' => Some('S'),
        't' | 'T' => Some('T'),
        'u' | 'U' => Some('U'),
        'v' | 'V' => Some('V'),
        'w' | 'W' => Some('W'),
        'x' | 'X' => Some('X'),
        'y' | 'Y' => Some('Y'),
        'z' | 'Z' => Some('Z'),
        _ => None,
    }
}

/// Whether `c` is an ASCII decimal digit.
pub open spec fn is_digit_char(c: char) -> bool {
    '0' as u32 <= c as u32 && c as u32 <= '9' as u32
}

/// Whether `c` is one of the whitespace characters the settings-file
/// decoder skips between tokens.
pub open spec fn is_ws_char(c: char) -> bool {
    c == ' ' || c == '\n' || c == '\t' || c == '\r'
}

/// Executable twin of [`is_ws_char`].
pub fn ws(c: char) -> (r: bool)
    ensures
        r == is_ws_char(c),
{
    c == ' ' || c == '\n' || c == '\t' || c == '\r'
}

/// Case-insensitive equality of two character sequences (ASCII case only).
pub open spec fn eq_ci(a: Seq<char>, b: Seq<char>) -> bool {
    &&& a.len() == b.len()
    &&& forall|k: int| 0 <= k < a.len() ==> lower_char(a[k]) == lower_char(b[k])
}

/// Case-insensitive comparison of two string slices (ASCII case only).
pub fn str_eq_ci(a: &str, b: &str) -> (r: bool)
    ensures
        r == eq_ci(a@, b@),
{
    let na = a.unicode_len();
    let nb = b.unicode_len();
    if na != nb {
        return false;
    }
    let mut i: usize = 0;
    while i < na
        invariant
            na == a@.len(),
            nb == b@.len(),
            na == nb,
            i <= na,
            forall|k: int| 0 <= k < i ==> lower_char(a@[k]) == lower_char(b@[k]),
        decreases na - i,
    {
        let ca = a.get_char(i);
        let cb = b.get_char(i);
        if lower(ca) != lower(cb) {
            return false;
        }
        i += 1;
    }
    true
}

} // verus!
