//! The temperature value: a fixed-point number of thousandths of a degree
//! Celsius, with its unit conversions.
use vstd::prelude::*;
use crate::text::{decimal, digit, digit_char, magnitude, push_char, push_decimal};

verus! {

/// Thousandths of a degree between the Celsius and Kelvin zero points.
pub const KELVIN_OFFSET: i32 = 273_150;

/// Thousandths of a degree Fahrenheit at which water freezes.
pub const FAHRENHEIT_OFFSET: i32 = 32_000;

/// Full scale of the twelve-bit converter.
pub const ADC_FULL_SCALE: u16 = 4095;

/// Thousandths of a degree Celsius that the converter reports at full scale:
/// a 3.3 V reference read through a 10 mV per degree sensor.
pub const ADC_FULL_SCALE_MILLIS: i32 = 330_000;

/// A temperature, in thousandths of a degree Celsius.
#[derive(Debug, Clone, Copy, PartialEq, Eq, Structural)]
pub struct Temperature {
    pub millicelsius: i32,
}

/// Integer division that rounds toward zero, as machine division does.
pub open spec fn div_toward_zero(a: int, b: int) -> int
    recommends
        b > 0,
{
    if a >= 0 {
        a / b
    } else {
        -((-a) / b)
    }
}

/// Thousandths of a degree rounded to tenths, halves away from zero,
/// followed by the unit: `23456` is `23.5°C`.
pub open spec fn display_text(millicelsius: int) -> Seq<char> {
    let size = if millicelsius < 0 { -millicelsius } else { millicelsius };
    let tenths = (size + 50) / 100;
    let sign = if millicelsius < 0 { seq!['-'] } else { Seq::<char>::empty() };
    sign + decimal((tenths / 10) as nat) + seq!['.', digit(tenths % 10), '°', 'C']
}

impl Temperature {
    /// A temperature of `millicelsius` thousandths of a degree Celsius.
    pub fn new(millicelsius: i32) -> (t: Temperature)
        ensures
            t.millicelsius == millicelsius,
    {
        Temperature { millicelsius }
    }

    /// The Fahrenheit reading `fahrenheit`, in thousandths of a degree, as a
    /// temperature: five ninths of its distance from the freezing point,
    /// rounded toward zero.
    pub fn from_fahrenheit(fahrenheit: i32) -> (t: Temperature)
        ensures
            t.millicelsius == div_toward_zero((fahrenheit - FAHRENHEIT_OFFSET) * 5, 9),
    {
        let scaled: i64 = (fahrenheit as i64 - FAHRENHEIT_OFFSET as i64) * 5;
        let celsius: i64 = scaled / 9;
        Temperature { millicelsius: celsius as i32 }
    }

    /// The Kelvin reading `kelvin`, in thousandths of a degree, as a
    /// temperature.  The result has to fit the representation.
    pub fn from_kelvin(kelvin: i32) -> (t: Temperature)
        requires
            kelvin - KELVIN_OFFSET >= i32::MIN,
        ensures
            t.millicelsius == kelvin - KELVIN_OFFSET,
    {
        Temperature { millicelsius: kelvin - KELVIN_OFFSET }
    }

    /// The temperature that a raw converter count stands for: the count's
    /// share of full scale, rounded down.
    pub fn from_embedded_sensor(adc_value: u16) -> (t: Temperature)
        ensures
            t.millicelsius == (adc_value * ADC_FULL_SCALE_MILLIS) / (ADC_FULL_SCALE as int),
    {
        let scaled: i64 = adc_value as i64 * 330_000;
        let celsius: i64 = scaled / 4095;
        Temperature { millicelsius: celsius as i32 }
    }

    /// This temperature in thousandths of a degree Fahrenheit, rounded
    /// toward zero.
    pub fn to_fahrenheit(&self) -> (fahrenheit: i64)
        ensures
            fahrenheit == div_toward_zero(self.millicelsius * 9, 5) + FAHRENHEIT_OFFSET,
    {
        let scaled: i64 = self.millicelsius as i64 * 9;
        scaled / 5 + FAHRENHEIT_OFFSET as i64
    }

    /// This temperature in thousandths of a degree Kelvin.
    pub fn to_kelvin(&self) -> (kelvin: i64)
        ensures
            kelvin == self.millicelsius + KELVIN_OFFSET,
    {
        self.millicelsius as i64 + KELVIN_OFFSET as i64
    }

    /// The temperature written with one decimal place and its unit.
    pub fn to_display_string(&self) -> (s: String)
        ensures
            s@ == display_text(self.millicelsius as int),
    {
        let size = magnitude(self.millicelsius as i64);
        let tenths: u64 = (size + 50) / 100;
        let mut s = String::new();
        if self.millicelsius < 0 {
            push_char(&mut s, '-');
        }
        push_decimal(&mut s, tenths / 10);
        push_char(&mut s, '.');
        push_char(&mut s, digit_char((tenths % 10) as u8));
        push_char(&mut s, '°');
        push_char(&mut s, 'C');
        assert(s@ =~= display_text(self.millicelsius as int));
        s
    }
}

} // verus!
