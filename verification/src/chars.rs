//! Character classes, stated as ranges of code points.

use vstd::prelude::*;

verus! {

/// Unicode's `White_Space` property.
pub open spec fn whitespace(c: char) -> bool {
    let n = c as int;
    ||| 9 <= n <= 13
    ||| n == 32
    ||| n == 0x85
    ||| n == 0xa0
    ||| n == 0x1680
    ||| 0x2000 <= n <= 0x200a
    ||| n == 0x2028
    ||| n == 0x2029
    ||| n == 0x202f
    ||| n == 0x205f
    ||| n == 0x3000
}

/// Unicode's control category: C0, DEL and C1.
pub open spec fn control(c: char) -> bool {
    let n = c as int;
    n < 0x20 || 0x7f <= n < 0xa0
}

/// The control characters inside ASCII.
pub open spec fn ascii_control(c: char) -> bool {
    let n = c as int;
    n < 0x20 || n == 0x7f
}

pub open spec fn digit(c: char) -> bool {
    '0' <= c <= '9'
}

pub open spec fn lower(c: char) -> bool {
    'a' <= c <= 'z'
}

pub open spec fn upper(c: char) -> bool {
    'A' <= c <= 'Z'
}

pub open spec fn alphanumeric(c: char) -> bool {
    digit(c) || lower(c) || upper(c)
}

/// ASCII lowercasing: `A` to `Z` move, everything else stays.
pub open spec fn lowered(c: char) -> char {
    if upper(c) {
        ((c as int) + 32) as char
    } else {
        c
    }
}

pub fn is_whitespace(c: char) -> (b: bool)
    ensures
        b == whitespace(c),
{
    let n: u32 = c as u32;
    (9 <= n && n <= 13) || n == 32 || n == 0x85 || n == 0xa0 || n == 0x1680 || (0x2000 <= n && n
        <= 0x200a) || n == 0x2028 || n == 0x2029 || n == 0x202f || n == 0x205f || n == 0x3000
}

pub fn is_control(c: char) -> (b: bool)
    ensures
        b == control(c),
{
    let n: u32 = c as u32;
    n < 0x20 || (0x7f <= n && n < 0xa0)
}

pub fn is_ascii_control(c: char) -> (b: bool)
    ensures
        b == ascii_control(c),
{
    let n: u32 = c as u32;
    n < 0x20 || n == 0x7f
}

pub fn is_digit(c: char) -> (b: bool)
    ensures
        b == digit(c),
{
    '0' <= c && c <= '9'
}

pub fn is_lower(c: char) -> (b: bool)
    ensures
        b == lower(c),
{
    'a' <= c && c <= 'z'
}

pub fn is_alphanumeric(c: char) -> (b: bool)
    ensures
        b == alphanumeric(c),
{
    is_digit(c) || is_lower(c) || ('A' <= c && c <= 'Z')
}

pub fn to_lower(c: char) -> (r: char)
    ensures
        r == lowered(c),
{
    if 'A' <= c && c <= 'Z' {
        ((c as u8) + 32) as char
    } else {
        c
    }
}

// ---- laws -----------------------------------------------------------------------------

/// Lowering moves the capitals of ASCII onto its small letters, one for one, and nothing else.
pub proof fn lowering_moves_capitals_alone(c: char)
    ensures
        'A' <= c <= 'Z' ==> 'a' <= lowered(c) <= 'z' && lowered(c) as int - 'a' as int == c as int
            - 'A' as int,
        !('A' <= c <= 'Z') ==> lowered(c) == c,
        lowered(lowered(c)) == lowered(c),
{
}

/// The classes of characters keep apart: what is a letter or a digit is neither whitespace nor a
/// control character, a space is whitespace alone, and a tab and a line break are both.
pub proof fn classes_keep_apart(c: char)
    ensures
        alphanumeric(c) <==> 'a' <= c <= 'z' || 'A' <= c <= 'Z' || '0' <= c <= '9',
        alphanumeric(c) ==> !whitespace(c) && !control(c),
        ascii_control(c) ==> control(c),
        control(c) && (c as int) < 0x80 ==> ascii_control(c),
        c == ' ' ==> whitespace(c) && !control(c),
        c == '\t' || c == '\n' || c == '\r' ==> whitespace(c) && control(c),
        0x21 <= c as int <= 0x7e ==> !whitespace(c) && !control(c),
{
}

} // verus!
