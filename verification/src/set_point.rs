//! The speed a fan is asked to run at, as the fraction of its configured maximum that it accepts
//! over Modbus, and the settings the controller offers.

use vstd::prelude::*;
use crate::sensor::ascii_bytes;
use vstd::string::StringSliceAdditionalSpecFns;
use crate::text::{decimal, lemma_decimal_u16};
use crate::trusted::{short_text_bytes, short_text_from_u16};

verus! {

/// The set point that stands for the fan's configured maximum speed.
pub const MAX: u16 = 64_000;

/// The desired speed of a fan, from 0 to [`MAX`].
#[derive(Debug, Clone, Copy, PartialEq, Eq, Structural, PartialOrd, Ord)]
pub struct SetPoint(u16);

/// A set point above [`MAX`] was asked for.
#[derive(Debug, Clone, Copy, PartialEq, Eq, Structural)]
pub struct SetPointOutOfBoundsError;

impl View for SetPoint {
    type V = u16;

    closed spec fn view(&self) -> u16 {
        self.0
    }
}

impl SetPoint {
    /// Every set point is within the range the fan accepts.
    pub closed spec fn well_formed(&self) -> bool {
        self.0 <= MAX
    }

    /// The fan standing still, as a value.
    pub closed spec fn standing_still() -> SetPoint {
        SetPoint(0)
    }

    /// Standing still is the set point zero, and the only one.
    pub proof fn lemma_standing_still(set_point: SetPoint)
        ensures
            SetPoint::standing_still()@ == 0,
            SetPoint::standing_still().well_formed(),
            set_point@ == 0 <==> set_point == SetPoint::standing_still(),
    {
    }

    /// The set point with this value.
    pub closed spec fn with_value(value: u16) -> SetPoint {
        SetPoint(value)
    }

    /// A set point is the one with its value.
    pub proof fn lemma_with_value(set_point: SetPoint, value: u16)
        ensures
            SetPoint::with_value(value)@ == value,
            set_point@ == value <==> set_point == SetPoint::with_value(value),
    {
    }

    /// Two set points with the same value are the same.
    pub proof fn lemma_view_determines(a: SetPoint, b: SetPoint)
        ensures
            a@ == b@ <==> a == b,
    {
    }

    /// The fan standing still.
    pub fn zero() -> (zero: Self)
        ensures
            zero == SetPoint::standing_still(),
            zero@ == 0,
            zero.well_formed(),
    {
        SetPoint(0)
    }

    /// The set point, unless it is above [`MAX`].
    pub fn new(set_point: u16) -> (result: Result<Self, SetPointOutOfBoundsError>)
        ensures
            result is Ok <==> set_point <= MAX,
            result matches Ok(value) ==> value@ == set_point && value.well_formed(),
    {
        if set_point > MAX {
            return Err(SetPointOutOfBoundsError);
        }
        Ok(Self(set_point))
    }

    /// The raw value written to the fan's register.
    pub fn get(&self) -> (value: u16)
        ensures
            value == self@,
    {
        self.0
    }

    /// The set point in decimal, which always fits five characters.
    pub fn to_string(&self) -> (text: heapless::String<5>)
        ensures
            short_text_bytes(text) == ascii_bytes(decimal(self@ as nat)),
    {
        proof {
            lemma_decimal_u16(self.0 as nat);
        }
        // Five digits hold every `u16`, so the conversion never fails
        let text = short_text_from_u16(self.0);
        assert(text is Ok);
        text.unwrap()
    }
}

/// Why text could not be read as a set point.
#[derive(Debug, Clone, Copy, PartialEq, Eq, Structural)]
pub enum ParseSetPointError {
    /// The text is not a number that fits 16 bits
    ParseInt,
    /// The number is above [`MAX`]
    SettingOutOfBounds(SetPointOutOfBoundsError),
}

/// Whether a byte is an ASCII decimal digit.
pub open spec fn is_digit(byte: u8) -> bool {
    48 <= byte <= 57
}

/// The value of a run of ASCII decimal digits, most significant first.
pub open spec fn digits_value(digits: Seq<u8>) -> nat
    decreases digits.len(),
{
    if digits.len() == 0 {
        0
    } else {
        digits_value(digits.drop_last()) * 10 + (digits.last() - 48) as nat
    }
}

/// Whether every byte is an ASCII decimal digit.
pub open spec fn all_digits(bytes: Seq<u8>) -> bool {
    forall|i: int| 0 <= i < bytes.len() ==> is_digit(#[trigger] bytes[i])
}

/// The text without the `+` it may start with.
pub open spec fn unsigned_digits(text: Seq<u8>) -> Seq<u8> {
    if text.len() > 0 && text[0] == 43 {
        text.drop_first()
    } else {
        text
    }
}

/// The number text holds as `u16::from_str` reads it: an optional `+`, then at least one decimal
/// digit and nothing else, and a value that fits 16 bits; `None` for anything else.
pub open spec fn parsed_u16(text: Seq<u8>) -> Option<u16> {
    let digits = unsigned_digits(text);
    if digits.len() > 0 && all_digits(digits) && digits_value(digits) <= 0xFFFF {
        Some(digits_value(digits) as u16)
    } else {
        None
    }
}

/// Reads a 16 bit number as `u16::from_str` does: see [`parsed_u16`].
pub fn parse_u16_text(text: &[u8]) -> (result: Option<u16>)
    ensures
        result == parsed_u16(text@),
{
    let start: usize = if text.len() > 0 && text[0] == 43 { 1 } else { 0 };
    let ghost digits = unsigned_digits(text@);
    if start >= text.len() {
        return None;
    }
    let mut value: u32 = 0;
    let mut index: usize = start;
    while index < text.len()
        invariant
            start <= index <= text@.len(),
            start == 0 || start == 1,
            start < text@.len(),
            digits == text@.subrange(start as int, text@.len() as int),
            digits == unsigned_digits(text@),
            forall|i: int| start <= i < index ==> is_digit(#[trigger] text@[i]),
            value == digits_value(text@.subrange(start as int, index as int)),
            value <= 0xFFFF,
        decreases text@.len() - index,
    {
        let byte = text[index];
        if byte < 48 || byte > 57 {
            proof {
                assert(digits[index - start] == byte);
                assert(!is_digit(digits[index - start]));
            }
            return None;
        }
        let next: u32 = value * 10 + (byte - 48) as u32;
        proof {
            assert(text@.subrange(start as int, index + 1).drop_last() =~= text@.subrange(
                start as int,
                index as int,
            ));
            assert(text@.subrange(start as int, index + 1).last() == byte);
            assert(digits_value(text@.subrange(start as int, index + 1)) == next);
        }
        if next > 0xFFFF {
            proof {
                if all_digits(digits) {
                    lemma_digits_value_monotonic(digits, (index + 1 - start) as int);
                    assert(digits.subrange(0, index + 1 - start) =~= text@.subrange(
                        start as int,
                        index + 1,
                    ));
                }
            }
            return None;
        }
        value = next;
        index = index + 1;
    }
    proof {
        assert(text@.subrange(start as int, index as int) =~= digits);
        assert forall|i: int| 0 <= i < digits.len() implies is_digit(#[trigger] digits[i]) by {
            assert(digits[i] == text@[i + start]);
        }
    }
    Some(value as u16)
}

/// A run of digits is worth at least as much as any run it starts with.
pub proof fn lemma_digits_value_monotonic(digits: Seq<u8>, length: int)
    requires
        0 <= length <= digits.len(),
        forall|i: int| 0 <= i < digits.len() ==> is_digit(#[trigger] digits[i]),
    ensures
        digits_value(digits.subrange(0, length)) <= digits_value(digits),
    decreases digits.len() - length,
{
    if length < digits.len() {
        lemma_digits_value_monotonic(digits, length + 1);
        assert(digits.subrange(0, length + 1).drop_last() =~= digits.subrange(0, length));
    } else {
        assert(digits.subrange(0, length) =~= digits);
    }
}

/// What [`SetPoint::from_str`] makes of text: the set point of the 16 bit number it holds, unless
/// that is not a number or above [`MAX`].
pub open spec fn parsed_set_point(text: Seq<u8>) -> Result<SetPoint, ParseSetPointError> {
    match parsed_u16(text) {
        None => Err(ParseSetPointError::ParseInt),
        Some(value) => if value <= MAX {
            Ok(SetPoint::with_value(value))
        } else {
            Err(ParseSetPointError::SettingOutOfBounds(SetPointOutOfBoundsError))
        },
    }
}

impl SetPoint {
    /// Reads a set point from text as Home Assistant sends it: a 16 bit number, at most [`MAX`].
    pub fn from_str(text: &str) -> (result: Result<Self, ParseSetPointError>)
        ensures
            result == parsed_set_point(text.spec_bytes()),
            result matches Ok(set_point) ==> set_point.well_formed(),
    {
        match parse_u16_text(text.as_bytes()) {
            None => Err(ParseSetPointError::ParseInt),
            Some(value) => match Self::new(value) {
                Ok(set_point) => {
                    proof {
                        SetPoint::lemma_with_value(set_point, value);
                    }
                    Ok(set_point)
                },
                Err(error) => Err(ParseSetPointError::SettingOutOfBounds(error)),
            },
        }
    }
}

/// The decimal digits of a number are ASCII digits worth that number.
pub proof fn lemma_decimal_digits_value(n: nat)
    ensures
        ascii_bytes(decimal(n)).len() > 0,
        all_digits(ascii_bytes(decimal(n))),
        digits_value(ascii_bytes(decimal(n))) == n,
    decreases n,
{
    crate::text::lemma_digit_ascii((n % 10) as int);
    if n < 10 {
        let bytes = ascii_bytes(decimal(n));
        assert(bytes.drop_last() =~= Seq::<u8>::empty());
        assert(bytes.last() == 48 + n);
        assert(digits_value(bytes) == digits_value(bytes.drop_last()) * 10 + (bytes.last() - 48) as nat);
    } else {
        lemma_decimal_digits_value(n / 10);
        let bytes = ascii_bytes(decimal(n));
        let front = ascii_bytes(decimal(n / 10));
        assert(bytes.drop_last() =~= front);
        assert(bytes.last() == 48 + n % 10);
        assert(digits_value(bytes) == digits_value(front) * 10 + n % 10);
        assert((n / 10) * 10 + n % 10 == n);
        assert forall|i: int| 0 <= i < bytes.len() implies is_digit(#[trigger] bytes[i]) by {
            if i < front.len() {
                assert(bytes[i] == front[i]);
            }
        }
    }
}

/// Reading back a number's decimal form gives the number: the text a set point is published as
/// is read as that same set point.
pub proof fn lemma_parse_reads_back_decimal(n: u16)
    ensures
        parsed_u16(ascii_bytes(decimal(n as nat))) == Some(n),
{
    lemma_decimal_digits_value(n as nat);
    let bytes = ascii_bytes(decimal(n as nat));
    assert(is_digit(bytes[0]));
    assert(unsigned_digits(bytes) == bytes);
}

/// Reading back the text a set point is written as gives that set point: from any string slice
/// holding the bytes [`SetPoint::to_string`] writes, [`SetPoint::from_str`] reads the set point
/// itself.
pub proof fn lemma_from_str_reads_back_to_string(set_point: SetPoint, text: heapless::String<5>, read: &str)
    requires
        set_point.well_formed(),
        short_text_bytes(text) == ascii_bytes(decimal(set_point@ as nat)),
        read.spec_bytes() == short_text_bytes(text),
    ensures
        parsed_set_point(read.spec_bytes()) == Ok::<SetPoint, ParseSetPointError>(set_point),
{
    lemma_parse_reads_back_decimal(set_point@);
    SetPoint::lemma_with_value(set_point, set_point@);
}

} // verus!
