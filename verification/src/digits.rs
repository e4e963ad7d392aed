//! Numbers as text: decimal, octal and hexadecimal digits, and reading decimals back.

use vstd::prelude::*;

use crate::chars::{alphanumeric, digit, is_digit};
use crate::strings::chars_of;

verus! {

/// The digit for `d`; from ten on, a letter counted from `letters`.
pub open spec fn digit_char(d: int, letters: char) -> char {
    if d < 10 {
        (48 + d) as char
    } else {
        ((letters as int) + (d - 10)) as char
    }
}

/// `n` in `base`, most significant digit first, without leading zeros.
pub open spec fn digits_of(n: nat, base: nat, letters: char) -> Seq<char>
    decreases n,
{
    if base < 2 || n < base {
        seq![digit_char(n as int, letters)]
    } else {
        proof {
            assert(n / base < n) by (nonlinear_arith)
                requires
                    n >= base,
                    base >= 2,
            ;
        }
        digits_of(n / base, base, letters).push(digit_char((n % base) as int, letters))
    }
}

pub open spec fn decimal(n: nat) -> Seq<char> {
    digits_of(n, 10, 'a')
}

pub open spec fn octal(n: nat) -> Seq<char> {
    digits_of(n, 8, 'a')
}

/// Uppercase hexadecimal, padded with zeros to four digits.
pub open spec fn hex_padded(n: nat) -> Seq<char> {
    let d = digits_of(n, 16, 'A');
    if d.len() < 4 {
        Seq::new((4 - d.len()) as nat, |i: int| '0') + d
    } else {
        d
    }
}

/// Two lowercase hexadecimal digits for each byte.
pub open spec fn hex_bytes(bytes: Seq<u8>) -> Seq<char>
    decreases bytes.len(),
{
    if bytes.len() == 0 {
        Seq::empty()
    } else {
        hex_bytes(bytes.drop_last()).push(digit_char(bytes.last() as int / 16, 'a')).push(
            digit_char(bytes.last() as int % 16, 'a'),
        )
    }
}

/// Numbers are written in digits and letters.
pub proof fn digits_are_alphanumeric(n: nat, base: nat)
    requires
        2 <= base <= 16,
    ensures
        digits_of(n, base, 'a').len() > 0,
        forall|i: int|
            0 <= i < digits_of(n, base, 'a').len() ==> alphanumeric(
                #[trigger] digits_of(n, base, 'a')[i],
            ),
    decreases n,
{
    if n >= base {
        assert(n / base < n) by (nonlinear_arith)
            requires
                n >= base,
                base >= 2,
        ;
        assert(0 <= n % base < base) by (nonlinear_arith)
            requires
                base >= 2,
        ;
        digits_are_alphanumeric(n / base, base);
    }
}

fn to_digit(d: u64, letters: char) -> (c: char)
    requires
        d < 16,
        letters == 'a' || letters == 'A',
    ensures
        c == digit_char(d as int, letters),
{
    if d < 10 {
        (48 + d as u8) as char
    } else {
        (letters as u8 + (d as u8 - 10)) as char
    }
}

fn push_digits(out: &mut String, n: u128, base: u128, letters: char)
    requires
        2 <= base <= 16,
        letters == 'a' || letters == 'A',
    ensures
        final(out)@ == old(out)@ + digits_of(n as nat, base as nat, letters),
    decreases n,
{
    if n < base {
        out.push(to_digit(n as u64, letters));
        assert(out@ =~= old(out)@ + digits_of(n as nat, base as nat, letters));
    } else {
        assert(n / base < n) by (nonlinear_arith)
            requires
                n >= base,
                base >= 2,
        ;
        push_digits(out, n / base, base, letters);
        out.push(to_digit((n % base) as u64, letters));
        assert(out@ =~= old(out)@ + digits_of(n as nat, base as nat, letters));
    }
}

pub fn decimal_text(n: u64) -> (s: String)
    ensures
        s@ == decimal(n as nat),
{
    let mut s = String::new();
    push_digits(&mut s, n as u128, 10, 'a');
    assert(s@ =~= decimal(n as nat));
    s
}

/// [`decimal_text`] for counts that may exceed 64 bits.
pub fn decimal_wide(n: u128) -> (s: String)
    ensures
        s@ == decimal(n as nat),
{
    let mut s = String::new();
    push_digits(&mut s, n, 10, 'a');
    assert(s@ =~= decimal(n as nat));
    s
}

pub fn octal_text(n: u32) -> (s: String)
    ensures
        s@ == octal(n as nat),
{
    let mut s = String::new();
    push_digits(&mut s, n as u128, 8, 'a');
    assert(s@ =~= octal(n as nat));
    s
}

/// The four-digit form of a character's code point.
pub fn code_point(c: char) -> (s: String)
    ensures
        s@ == hex_padded(c as nat),
{
    let n: u32 = c as u32;
    let mut d = String::new();
    push_digits(&mut d, n as u128, 16, 'A');
    assert(d@ =~= digits_of(n as nat, 16, 'A'));
    let digits = chars_of(d.as_str());
    let mut s = String::new();
    let mut k: usize = digits.len();
    while k < 4
        invariant
            digits@ == d@,
            digits@.len() <= k,
            k <= 4 || k == digits@.len(),
            s@ =~= Seq::new((k - digits@.len()) as nat, |i: int| '0'),
        decreases 4 - k,
    {
        s.push('0');
        k = k + 1;
    }
    s.append(d.as_str());
    assert(s@ =~= hex_padded(c as nat));
    s
}

/// Lowercase hexadecimal, two digits a byte.
pub fn hex(bytes: &[u8]) -> (s: String)
    ensures
        s@ == hex_bytes(bytes@),
{
    let mut s = String::new();
    let mut i: usize = 0;
    while i < bytes.len()
        invariant
            i <= bytes@.len(),
            s@ == hex_bytes(bytes@.take(i as int)),
        decreases bytes@.len() - i,
    {
        let b: u8 = bytes[i];
        s.push(to_digit((b / 16) as u64, 'a'));
        s.push(to_digit((b % 16) as u64, 'a'));
        assert(bytes@.take(i + 1).drop_last() =~= bytes@.take(i as int));
        i = i + 1;
    }
    assert(bytes@.take(i as int) =~= bytes@);
    s
}

/// What a run of decimal digits stands for.
pub open spec fn value_of(s: Seq<char>) -> nat
    decreases s.len(),
{
    if s.len() == 0 {
        0
    } else {
        value_of(s.drop_last()) * 10 + ((s.last() as int) - 48) as nat
    }
}

pub open spec fn all_digits(s: Seq<char>) -> bool {
    forall|i: int| 0 <= i < s.len() ==> digit(#[trigger] s[i])
}

/// A decimal that fits 64 bits, with an optional plus sign.
pub open spec fn unsigned_of(s: Seq<char>) -> Option<nat> {
    let body = if s.len() > 0 && s[0] == '+' {
        s.skip(1)
    } else {
        s
    };
    if body.len() > 0 && all_digits(body) && value_of(body) <= u64::MAX {
        Some(value_of(body))
    } else {
        None
    }
}

proof fn value_grows(s: Seq<char>, k: int)
    requires
        0 <= k <= s.len(),
        all_digits(s),
    ensures
        value_of(s.take(k)) <= value_of(s),
    decreases s.len() - k,
{
    if k < s.len() {
        value_grows(s, k + 1);
        assert(s.take(k + 1).drop_last() =~= s.take(k));
    } else {
        assert(s.take(k) =~= s);
    }
}

/// Reads an unsigned decimal.
pub fn parse_unsigned(s: &str) -> (r: Option<u64>)
    ensures
        match r {
            Some(n) => unsigned_of(s@) == Some(n as nat),
            None => unsigned_of(s@) is None,
        },
{
    let v = chars_of(s);
    let mut start: usize = 0;
    if v.len() > 0 && v[0] == '+' {
        start = 1;
    }
    let ghost body = if start == 1 { s@.skip(1) } else { s@ };
    assert(body =~= v@.skip(start as int));
    if start == v.len() {
        return None;
    }
    let mut n: u64 = 0;
    let mut i: usize = start;
    assert(body.take(0) =~= Seq::empty());
    while i < v.len()
        invariant
            start <= i <= v@.len(),
            body == v@.skip(start as int),
            all_digits(body.take(i - start)),
            n == value_of(body.take(i - start)),
            body == (if s@.len() > 0 && s@[0] == '+' { s@.skip(1) } else { s@ }),
        decreases v@.len() - i,
    {
        let c = v[i];
        assert(body[i - start] == c);
        if !is_digit(c) {
            assert(!all_digits(body));
            return None;
        }
        let d: u64 = c as u64 - 48;
        proof {
            assert(body.take(i + 1 - start).drop_last() =~= body.take(i - start));
            assert forall|k: int| 0 <= k < i + 1 - start implies digit(
                #[trigger] body.take(i + 1 - start)[k],
            ) by {
                if k < i - start {
                    assert(digit(body.take(i - start)[k]));
                }
            }
        }
        if n > (u64::MAX - d) / 10 {
            proof {
                assert(value_of(body.take(i + 1 - start)) > u64::MAX);
                if all_digits(body) {
                    value_grows(body, i + 1 - start);
                }
            }
            return None;
        }
        n = n * 10 + d;
        i = i + 1;
    }
    assert(body.take(i - start) =~= body);
    Some(n)
}

/// A decimal is all digits, and reads back as the number it was made from.
pub proof fn decimal_reads_back(n: nat)
    ensures
        decimal(n).len() > 0,
        all_digits(decimal(n)),
        value_of(decimal(n)) == n,
    decreases n,
{
    let d = decimal(n);
    if n < 10 {
        assert(d =~= seq![digit_char(n as int, 'a')]);
        assert(d.drop_last() =~= Seq::empty());
        assert(value_of(d.drop_last()) == 0);
    } else {
        let head = decimal(n / 10);
        decimal_reads_back(n / 10);
        let c = digit_char((n % 10) as int, 'a');
        assert(d =~= head.push(c));
        assert(d.drop_last() =~= head);
        assert forall|i: int| 0 <= i < d.len() implies digit(#[trigger] d[i]) by {
            if i < head.len() {
                assert(d[i] == head[i]);
            }
        }
    }
}

/// Two numbers with the same decimal are the same number.
pub proof fn decimal_is_injective(a: nat, b: nat)
    requires
        decimal(a) == decimal(b),
    ensures
        a == b,
{
    decimal_reads_back(a);
    decimal_reads_back(b);
}

pub open spec fn octal_digit(c: char) -> bool {
    '0' <= c <= '7'
}

pub open spec fn all_octal(s: Seq<char>) -> bool {
    forall|i: int| 0 <= i < s.len() ==> octal_digit(#[trigger] s[i])
}

/// What a run of octal digits stands for.
pub open spec fn octal_value(s: Seq<char>) -> nat
    decreases s.len(),
{
    if s.len() == 0 {
        0
    } else {
        octal_value(s.drop_last()) * 8 + ((s.last() as int) - 48) as nat
    }
}

/// An octal number that fits 64 bits, with an optional plus sign.
pub open spec fn octal_of(s: Seq<char>) -> Option<nat> {
    let body = if s.len() > 0 && s[0] == '+' {
        s.skip(1)
    } else {
        s
    };
    if body.len() > 0 && all_octal(body) && octal_value(body) <= u64::MAX {
        Some(octal_value(body))
    } else {
        None
    }
}

proof fn octal_value_grows(s: Seq<char>, k: int)
    requires
        0 <= k <= s.len(),
        all_octal(s),
    ensures
        octal_value(s.take(k)) <= octal_value(s),
    decreases s.len() - k,
{
    if k < s.len() {
        octal_value_grows(s, k + 1);
        assert(s.take(k + 1).drop_last() =~= s.take(k));
    } else {
        assert(s.take(k) =~= s);
    }
}

/// Reads an unsigned octal number.
pub fn parse_octal(s: &str) -> (r: Option<u64>)
    ensures
        match r {
            Some(n) => octal_of(s@) == Some(n as nat),
            None => octal_of(s@) is None,
        },
{
    let v = chars_of(s);
    let mut start: usize = 0;
    if v.len() > 0 && v[0] == '+' {
        start = 1;
    }
    let ghost body = if start == 1 { s@.skip(1) } else { s@ };
    assert(body =~= v@.skip(start as int));
    if start == v.len() {
        return None;
    }
    let mut n: u64 = 0;
    let mut i: usize = start;
    assert(body.take(0) =~= Seq::empty());
    while i < v.len()
        invariant
            start <= i <= v@.len(),
            body == v@.skip(start as int),
            all_octal(body.take(i - start)),
            n == octal_value(body.take(i - start)),
            body == (if s@.len() > 0 && s@[0] == '+' { s@.skip(1) } else { s@ }),
        decreases v@.len() - i,
    {
        let c = v[i];
        assert(body[i - start] == c);
        if !('0' <= c && c <= '7') {
            assert(!octal_digit(body[i - start]));
            assert(!all_octal(body));
            return None;
        }
        let d: u64 = c as u64 - 48;
        proof {
            assert(body.take(i + 1 - start).drop_last() =~= body.take(i - start));
            assert forall|k: int| 0 <= k < i + 1 - start implies octal_digit(
                #[trigger] body.take(i + 1 - start)[k],
            ) by {
                if k < i - start {
                    assert(octal_digit(body.take(i - start)[k]));
                }
            }
        }
        if n > (u64::MAX - d) / 8 {
            proof {
                assert(octal_value(body.take(i + 1 - start)) > u64::MAX);
                if all_octal(body) {
                    octal_value_grows(body, i + 1 - start);
                }
            }
            return None;
        }
        n = n * 8 + d;
        i = i + 1;
    }
    assert(body.take(i - start) =~= body);
    Some(n)
}

/// Octal digits read back as the number they were written for.
pub proof fn octal_reads_back(n: nat)
    ensures
        octal(n).len() > 0,
        all_octal(octal(n)),
        octal_value(octal(n)) == n,
    decreases n,
{
    let d = octal(n);
    if n < 8 {
        assert(d =~= seq![digit_char(n as int, 'a')]);
        assert(d.drop_last() =~= Seq::empty());
        assert(octal_value(d.drop_last()) == 0);
    } else {
        octal_reads_back(n / 8);
        assert(d.drop_last() =~= octal(n / 8));
        assert(d.last() == digit_char((n % 8) as int, 'a'));
        assert forall|i: int| 0 <= i < d.len() implies octal_digit(#[trigger] d[i]) by {
            if i < d.len() - 1 {
                assert(d[i] == octal(n / 8)[i]);
            }
        }
    }
}

/// Bytes are written with two hexadecimal digits each, in order, the higher one first.
pub proof fn hex_takes_two_digits_a_byte(bytes: Seq<u8>, i: int)
    requires
        0 <= i < bytes.len(),
    ensures
        hex_bytes(bytes).len() == 2 * bytes.len(),
        hex_bytes(bytes)[2 * i] == digit_char(bytes[i] as int / 16, 'a'),
        hex_bytes(bytes)[2 * i + 1] == digit_char(bytes[i] as int % 16, 'a'),
    decreases bytes.len(),
{
    reveal_with_fuel(hex_bytes, 2);
    if bytes.len() > 1 {
        let init = bytes.drop_last();
        if i < init.len() {
            hex_takes_two_digits_a_byte(init, i);
        } else {
            hex_takes_two_digits_a_byte(init, 0);
        }
    }
}

/// Octal digits are read back, with or without a sign, and anything but octal digits is not.
pub proof fn octal_numbers_read_back(n: u64, s: Seq<char>)
    ensures
        octal_of(octal(n as nat)) == Some(n as nat),
        octal_of(seq!['+'] + octal(n as nat)) == Some(n as nat),
        unsigned_of(decimal(n as nat)) == Some(n as nat),
        unsigned_of(seq!['+'] + decimal(n as nat)) == Some(n as nat),
        s.len() == 0 ==> octal_of(s) is None && unsigned_of(s) is None,
        (exists|i: int| 0 <= i < s.len() && #[trigger] s[i] != '+' && !('0' <= s[i] <= '9'))
            ==> octal_of(s) is None && unsigned_of(s) is None,
{
    octal_reads_back(n as nat);
    decimal_reads_back(n as nat);
    let o = octal(n as nat);
    let d = decimal(n as nat);
    assert(octal_digit(o[0]));
    assert(digit(d[0]));
    assert((seq!['+'] + o).skip(1) =~= o);
    assert((seq!['+'] + d).skip(1) =~= d);
    if exists|i: int| 0 <= i < s.len() && #[trigger] s[i] != '+' && !('0' <= s[i] <= '9') {
        let i = choose|i: int| 0 <= i < s.len() && #[trigger] s[i] != '+' && !('0' <= s[i] <= '9');
        if s[0] == '+' {
            assert(s.skip(1)[i - 1] == s[i]);
            assert(!digit(s.skip(1)[i - 1]) && !octal_digit(s.skip(1)[i - 1]));
        } else {
            assert(!digit(s[i]) && !octal_digit(s[i]));
        }
    }
}

} // verus!
