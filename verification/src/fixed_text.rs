//! Lines of text in buffers of fixed size, written piece by piece without
//! the heap: a status line and the line for one reading.
use vstd::prelude::*;
use vstd::string::{is_ascii_spec_bytes, StringSliceAdditionalSpecFns};
use vstd::utf8::{encode_utf8, is_ascii_chars, is_ascii_chars_concat, is_ascii_chars_encode_utf8};
use crate::embedded::EmbeddedTemperatureReading;
use crate::text::{decimal, digit, signed_decimal};

verus! {

/// `heapless::String<N>`, a text in a buffer of `N` bytes.
#[verifier::external_type_specification]
#[verifier::external_body]
pub struct ExFixedString<const N: usize>(heapless::String<N>);

/// The characters that a line of at most 128 bytes holds.
pub uninterp spec fn status_text(line: heapless::String<128>) -> Seq<char>;

/// The characters that a line of at most 64 bytes holds.
pub uninterp spec fn reading_text(line: heapless::String<64>) -> Seq<char>;

/// `heapless::String::new` gives an empty line.
#[verifier::external_body]
fn new_status_line() -> (line: heapless::String<128>)
    ensures
        status_text(line) == Seq::<char>::empty(),
{
    heapless::String::new()
}

/// `heapless::String::new` gives an empty line.
#[verifier::external_body]
fn new_reading_line() -> (line: heapless::String<64>)
    ensures
        reading_text(line) == Seq::<char>::empty(),
{
    heapless::String::new()
}

/// `heapless::String::push_str` appends `part` where its bytes fit into
/// what is left of the 128 bytes, and leaves the line as it was where they
/// do not.
#[verifier::external_body]
fn push_status(line: &mut heapless::String<128>, part: &str) -> (pushed: bool)
    ensures
        pushed == (encode_utf8(status_text(*old(line))).len() + part.spec_bytes().len() <= 128),
        pushed ==> status_text(*final(line)) == status_text(*old(line)) + part@,
        !pushed ==> status_text(*final(line)) == status_text(*old(line)),
{
    line.push_str(part).is_ok()
}

/// `heapless::String::push_str` appends `part` where its bytes fit into
/// what is left of the 64 bytes, and leaves the line as it was where they
/// do not.
#[verifier::external_body]
fn push_reading(line: &mut heapless::String<64>, part: &str) -> (pushed: bool)
    ensures
        pushed == (encode_utf8(reading_text(*old(line))).len() + part.spec_bytes().len() <= 64),
        pushed ==> reading_text(*final(line)) == reading_text(*old(line)) + part@,
        !pushed ==> reading_text(*final(line)) == reading_text(*old(line)),
{
    line.push_str(part).is_ok()
}

/// Ten to the power of `exponent`.
pub open spec fn power_of_ten(exponent: nat) -> nat
    decreases exponent,
{
    if exponent == 0 {
        1
    } else {
        10 * power_of_ten((exponent - 1) as nat)
    }
}

/// A number below ten to the power of `digits` is written with at most
/// `digits` digits, all of them characters of one byte.
pub proof fn lemma_decimal_length(n: nat, digits: nat)
    requires
        digits >= 1,
        n < power_of_ten(digits),
    ensures
        1 <= decimal(n).len() <= digits,
        is_ascii_chars(decimal(n)),
    decreases digits,
{
    assert(power_of_ten(1) == 10) by {
        reveal_with_fuel(power_of_ten, 2);
    }
    if n >= 10 {
        if digits == 1 {
            assert(false);
        } else {
            lemma_decimal_length(n / 10, (digits - 1) as nat);
        }
    }
}

/// A 32-bit number is written with at most ten digits.
pub proof fn lemma_decimal_of_u32(n: nat)
    requires
        n <= 0x1_0000_0000,
    ensures
        1 <= decimal(n).len() <= 10,
        is_ascii_chars(decimal(n)),
{
    assert(power_of_ten(10) == 10_000_000_000) by {
        reveal_with_fuel(power_of_ten, 11);
    }
    lemma_decimal_length(n, 10);
}

/// The text of one decimal digit.
fn digit_text(d: u8) -> (text: &'static str)
    requires
        d < 10,
    ensures
        text@ == seq![digit(d as int)],
        is_ascii_chars(text@),
        text.spec_bytes().len() == 1,
{
    proof {
        reveal_strlit("0");
        reveal_strlit("1");
        reveal_strlit("2");
        reveal_strlit("3");
        reveal_strlit("4");
        reveal_strlit("5");
        reveal_strlit("6");
        reveal_strlit("7");
        reveal_strlit("8");
        reveal_strlit("9");
    }
    let text = match d {
        0 => "0",
        1 => "1",
        2 => "2",
        3 => "3",
        4 => "4",
        5 => "5",
        6 => "6",
        7 => "7",
        8 => "8",
        _ => "9",
    };
    proof {
        assert(text@ =~= seq![digit(d as int)]);
        is_ascii_spec_bytes(text);
    }
    text
}

/// The number that an unsigned 32-bit number is when its bits are read as a
/// signed one.
pub open spec fn as_signed(n: u32) -> int {
    if n <= i32::MAX {
        n as int
    } else {
        n - 0x1_0000_0000
    }
}

/// The status line: how many readings were taken, and at what rate.  Both
/// numbers are written as the signed numbers that their bits stand for.
pub open spec fn status_line(reading_count: u32, sample_rate: u32) -> Seq<char> {
    "Readings: "@ + signed_decimal(as_signed(reading_count)) + ", Rate: "@ + signed_decimal(
        as_signed(sample_rate),
    ) + " Hz"@
}

/// The line for one reading: its temperature in degrees with one decimal
/// place, cut off, not rounded, and the second at which it was taken,
/// written as the signed number that its bits stand for.
pub open spec fn reading_line(millicelsius: int, timestamp: u32) -> Seq<char> {
    let size = if millicelsius < 0 { -millicelsius } else { millicelsius };
    let sign = if millicelsius < 0 { seq!['-'] } else { Seq::<char>::empty() };
    "Temp: "@ + sign + decimal((size / 1000) as nat) + seq!['.', digit(size % 1000 / 100)] + "C @ "@
        + signed_decimal(as_signed(timestamp)) + "s"@
}

/// Appends a piece of one-byte characters to a status line that has room
/// for it.
fn append_status(line: &mut heapless::String<128>, part: &str)
    requires
        is_ascii_chars(status_text(*old(line))),
        is_ascii_chars(part@),
        status_text(*old(line)).len() + part@.len() <= 128,
    ensures
        status_text(*final(line)) == status_text(*old(line)) + part@,
        is_ascii_chars(status_text(*final(line))),
{
    proof {
        is_ascii_chars_encode_utf8(status_text(*line));
        is_ascii_spec_bytes(part);
        is_ascii_chars_concat(status_text(*line) + part@, status_text(*line), part@);
    }
    let pushed = push_status(line, part);
    assert(pushed);
}

/// Appends a piece of one-byte characters to a reading line that has room
/// for it.
fn append_reading(line: &mut heapless::String<64>, part: &str)
    requires
        is_ascii_chars(reading_text(*old(line))),
        is_ascii_chars(part@),
        reading_text(*old(line)).len() + part@.len() <= 64,
    ensures
        reading_text(*final(line)) == reading_text(*old(line)) + part@,
        is_ascii_chars(reading_text(*final(line))),
{
    proof {
        is_ascii_chars_encode_utf8(reading_text(*line));
        is_ascii_spec_bytes(part);
        is_ascii_chars_concat(reading_text(*line) + part@, reading_text(*line), part@);
    }
    let pushed = push_reading(line, part);
    assert(pushed);
}

/// Appends the decimal numeral of `n` to a status line that has room for
/// it.
fn push_digits(line: &mut heapless::String<128>, n: u32)
    requires
        is_ascii_chars(status_text(*old(line))),
        status_text(*old(line)).len() + decimal(n as nat).len() <= 128,
    ensures
        status_text(*final(line)) == status_text(*old(line)) + decimal(n as nat),
        is_ascii_chars(status_text(*final(line))),
    decreases n,
{
    if n >= 10 {
        push_digits(line, n / 10);
    }
    append_status(line, digit_text((n % 10) as u8));
    assert(status_text(*line) =~= status_text(*old(line)) + decimal(n as nat));
}

/// Appends the decimal numeral of `n` to a reading line that has room for
/// it.
fn push_number_small(line: &mut heapless::String<64>, n: u32)
    requires
        is_ascii_chars(reading_text(*old(line))),
        reading_text(*old(line)).len() + decimal(n as nat).len() <= 64,
    ensures
        reading_text(*final(line)) == reading_text(*old(line)) + decimal(n as nat),
        is_ascii_chars(reading_text(*final(line))),
    decreases n,
{
    if n >= 10 {
        push_number_small(line, n / 10);
    }
    append_reading(line, digit_text((n % 10) as u8));
    assert(reading_text(*line) =~= reading_text(*old(line)) + decimal(n as nat));
}

/// The size of the signed number that the bits of `n` stand for, and
/// whether that number is negative.
fn signed_parts(n: u32) -> (parts: (bool, u32))
    ensures
        parts.0 == (as_signed(n) < 0),
        parts.1 == (if as_signed(n) < 0 { -as_signed(n) } else { as_signed(n) }),
        parts.1 <= 0x8000_0000,
{
    if n <= 0x7fff_ffff {
        (false, n)
    } else {
        (true, ((0x1_0000_0000u64 - n as u64) as u32))
    }
}

/// Appends to a status line, which has room for it, the signed number that
/// the bits of `n` stand for.
fn push_number(line: &mut heapless::String<128>, n: u32)
    requires
        is_ascii_chars(status_text(*old(line))),
        status_text(*old(line)).len() + 11 <= 128,
    ensures
        status_text(*final(line)) == status_text(*old(line)) + signed_decimal(as_signed(n)),
        is_ascii_chars(status_text(*final(line))),
        status_text(*final(line)).len() <= status_text(*old(line)).len() + 11,
{
    let (negative, size) = signed_parts(n);
    proof {
        lemma_decimal_of_u32(size as nat);
        reveal_strlit("-");
    }
    if negative {
        assert("-"@ =~= seq!['-']);
        append_status(line, "-");
    }
    push_digits(line, size);
    assert(status_text(*line) =~= status_text(*old(line)) + signed_decimal(as_signed(n)));
}

/// Appends to a reading line, which has room for it, the signed number
/// that the bits of `n` stand for.
fn push_reading_number(line: &mut heapless::String<64>, n: u32)
    requires
        is_ascii_chars(reading_text(*old(line))),
        reading_text(*old(line)).len() + 11 <= 64,
    ensures
        reading_text(*final(line)) == reading_text(*old(line)) + signed_decimal(as_signed(n)),
        is_ascii_chars(reading_text(*final(line))),
        reading_text(*final(line)).len() <= reading_text(*old(line)).len() + 11,
{
    let (negative, size) = signed_parts(n);
    proof {
        lemma_decimal_of_u32(size as nat);
        reveal_strlit("-");
    }
    if negative {
        assert("-"@ =~= seq!['-']);
        append_reading(line, "-");
    }
    push_number_small(line, size);
    assert(reading_text(*line) =~= reading_text(*old(line)) + signed_decimal(as_signed(n)));
}

/// Appends to a reading line, which has room for it, a number of
/// thousandths as a decimal fraction with one decimal place, cut off.
fn push_float(line: &mut heapless::String<64>, thousandths: i32)
    requires
        is_ascii_chars(reading_text(*old(line))),
        reading_text(*old(line)).len() + 10 <= 64,
    ensures
        reading_text(*final(line)) == reading_text(*old(line)) + (if thousandths < 0 {
            seq!['-']
        } else {
            Seq::<char>::empty()
        }) + decimal(
            ((if thousandths < 0 {
                -thousandths
            } else {
                thousandths as int
            }) / 1000) as nat,
        ) + seq![
            '.',
            digit(
                (if thousandths < 0 {
                    -thousandths
                } else {
                    thousandths as int
                }) % 1000 / 100,
            ),
        ],
        is_ascii_chars(reading_text(*final(line))),
        reading_text(*final(line)).len() <= reading_text(*old(line)).len() + 10,
{
    let size: u32 = if thousandths < 0 {
        (-(thousandths as i64)) as u32
    } else {
        thousandths as u32
    };
    let whole: u32 = size / 1000;
    let tenth: u8 = (size % 1000 / 100) as u8;
    proof {
        reveal_strlit("-");
        reveal_strlit(".");
        assert(power_of_ten(7) == 10_000_000) by {
            reveal_with_fuel(power_of_ten, 8);
        }
        lemma_decimal_length(whole as nat, 7);
    }
    if thousandths < 0 {
        assert("-"@ =~= seq!['-']);
        append_reading(line, "-");
    }
    push_number_small(line, whole);
    assert("."@ =~= seq!['.']);
    append_reading(line, ".");
    append_reading(line, digit_text(tenth));
    assert(reading_text(*line) =~= reading_text(*old(line)) + (if thousandths < 0 {
        seq!['-']
    } else {
        Seq::<char>::empty()
    }) + decimal(whole as nat) + seq!['.', digit(tenth as int)]);
}

/// The status line of a device that has taken `reading_count` readings at
/// `sample_rate` hertz.
pub fn create_status_string(reading_count: u32, sample_rate: u32) -> (status: heapless::String<128>)
    ensures
        status_text(status) == status_line(reading_count, sample_rate),
{
    let mut status = new_status_line();
    proof {
        reveal_strlit("Readings: ");
        reveal_strlit(", Rate: ");
        reveal_strlit(" Hz");
    }
    append_status(&mut status, "Readings: ");
    push_number(&mut status, reading_count);
    append_status(&mut status, ", Rate: ");
    push_number(&mut status, sample_rate);
    append_status(&mut status, " Hz");
    assert(status_text(status) =~= status_line(reading_count, sample_rate));
    status
}

/// The line for one reading.
pub fn format_temperature_reading(reading: &EmbeddedTemperatureReading) -> (formatted: heapless::String<64>)
    ensures
        reading_text(formatted) == reading_line(reading.temperature.millicelsius as int, reading.timestamp),
{
    let mut formatted = new_reading_line();
    proof {
        reveal_strlit("Temp: ");
        reveal_strlit("C @ ");
        reveal_strlit("s");
    }
    append_reading(&mut formatted, "Temp: ");
    push_float(&mut formatted, reading.temperature.millicelsius);
    append_reading(&mut formatted, "C @ ");
    push_reading_number(&mut formatted, reading.timestamp);
    append_reading(&mut formatted, "s");
    assert(reading_text(formatted) =~= reading_line(
        reading.temperature.millicelsius as int,
        reading.timestamp,
    ));
    formatted
}

} // verus!
