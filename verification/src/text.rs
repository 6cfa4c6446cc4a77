//! Text helpers shared by the rest of the library: comparing string slices,
//! and writing integers and fixed-point numbers in decimal.
use vstd::prelude::*;

verus! {

/// Appends one character to the end of a string, with `String::push`.
#[verifier::external_body]
pub(crate) fn push_char(s: &mut String, c: char)
    ensures
        final(s)@ == old(s)@.push(c),
{
    s.push(c);
}

/// Compares two string slices with `str`'s own `==`, which holds exactly
/// when both hold the same characters in the same order.
#[verifier::external_body]
pub(crate) fn str_eq(a: &str, b: &str) -> (same: bool)
    ensures
        same == (a@ == b@),
{
    a == b
}

/// The character that writes the decimal digit `d`.
pub open spec fn digit(d: int) -> char
    recommends
        0 <= d < 10,
{
    ((48 + d) as u8) as char
}

/// The decimal numeral of `n`, without leading zeros.
pub open spec fn decimal(n: nat) -> Seq<char>
    decreases n,
{
    if n < 10 {
        seq![digit(n as int)]
    } else {
        decimal(n / 10).push(digit((n % 10) as int))
    }
}

/// The decimal numeral of `i`, with a leading minus sign when it is negative.
pub open spec fn signed_decimal(i: int) -> Seq<char> {
    if i < 0 {
        seq!['-'] + decimal((-i) as nat)
    } else {
        decimal(i as nat)
    }
}

/// The fractional part of a number of thousandths: nothing when it is zero,
/// otherwise a point and up to three digits with trailing zeros removed.
pub open spec fn fraction(thousandths: nat) -> Seq<char>
    recommends
        thousandths < 1000,
{
    if thousandths == 0 {
        Seq::<char>::empty()
    } else if thousandths % 100 == 0 {
        seq!['.', digit((thousandths / 100) as int)]
    } else if thousandths % 10 == 0 {
        seq!['.', digit((thousandths / 100) as int), digit((thousandths / 10 % 10) as int)]
    } else {
        seq![
            '.',
            digit((thousandths / 100) as int),
            digit((thousandths / 10 % 10) as int),
            digit((thousandths % 10) as int),
        ]
    }
}

/// A number of thousandths written as a decimal fraction: `30000` is `30`,
/// `15500` is `15.5`, `-250` is `-0.25`.
pub open spec fn fixed_point(thousandths: int) -> Seq<char> {
    let magnitude = if thousandths < 0 { -thousandths } else { thousandths };
    let sign = if thousandths < 0 { seq!['-'] } else { Seq::<char>::empty() };
    sign + decimal((magnitude / 1000) as nat) + fraction((magnitude % 1000) as nat)
}

/// The character for one decimal digit.
pub fn digit_char(d: u8) -> (c: char)
    requires
        d < 10,
    ensures
        c == digit(d as int),
{
    (48u8 + d) as char
}

/// Appends the decimal numeral of `n` to `out`.
pub fn push_decimal(out: &mut String, n: u64)
    ensures
        final(out)@ == old(out)@ + decimal(n as nat),
    decreases n,
{
    if n >= 10 {
        push_decimal(out, n / 10);
    }
    push_char(out, digit_char((n % 10) as u8));
    assert(out@ =~= old(out)@ + decimal(n as nat));
}

/// The size of `i` without its sign.
pub fn magnitude(i: i64) -> (m: u64)
    ensures
        m == if i < 0 { -i } else { i as int },
{
    if i < 0 {
        if i == i64::MIN {
            9223372036854775808u64
        } else {
            (-i) as u64
        }
    } else {
        i as u64
    }
}

/// Appends the decimal numeral of `i`, with its sign, to `out`.
pub fn push_signed_decimal(out: &mut String, i: i64)
    ensures
        final(out)@ == old(out)@ + signed_decimal(i as int),
{
    if i < 0 {
        push_char(out, '-');
    }
    push_decimal(out, magnitude(i));
    assert(out@ =~= old(out)@ + signed_decimal(i as int));
}

/// Appends a number of thousandths, written as a decimal fraction, to `out`.
pub fn push_fixed_point(out: &mut String, thousandths: i64)
    ensures
        final(out)@ == old(out)@ + fixed_point(thousandths as int),
{
    let size = magnitude(thousandths);
    if thousandths < 0 {
        push_char(out, '-');
    }
    push_decimal(out, size / 1000);
    let rest: u64 = size % 1000;
    if rest != 0 {
        push_char(out, '.');
        push_char(out, digit_char((rest / 100) as u8));
        if rest % 100 != 0 {
            push_char(out, digit_char((rest / 10 % 10) as u8));
            if rest % 10 != 0 {
                push_char(out, digit_char((rest % 10) as u8));
            }
        }
    }
    assert(out@ =~= old(out)@ + fixed_point(thousandths as int));
}

/// The decimal numeral of `n` as a new string.
pub fn decimal_string(n: u64) -> (s: String)
    ensures
        s@ == decimal(n as nat),
{
    let mut s = String::new();
    push_decimal(&mut s, n);
    assert(s@ =~= decimal(n as nat));
    s
}

/// A number of thousandths, written as a decimal fraction, as a new string.
pub fn fixed_point_string(thousandths: i64) -> (s: String)
    ensures
        s@ == fixed_point(thousandths as int),
{
    let mut s = String::new();
    push_fixed_point(&mut s, thousandths);
    assert(s@ =~= fixed_point(thousandths as int));
    s
}

} // verus!
