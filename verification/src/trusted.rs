//! The calls into outside crates that the verified code makes, each with the contract that the
//! outside crate's source shows.

use vstd::prelude::*;
use crc::{Crc, CRC_16_MODBUS};
use vstd::string::StringSliceAdditionalSpecFns;
use vstd::utf8::valid_utf8;
use crate::sensor::{ascii_bytes, JSON_CAPACITY};
use crate::text::decimal;

verus! {

/// One bit of CRC-16/MODBUS, which works on the register reflected: the register shifted right,
/// with the reflected polynomial `0xA001` (`0x8005` reversed) folded in when the bit shifted out
/// was set.
pub open spec fn crc16_modbus_bit(crc: u16) -> u16 {
    if crc % 2 == 1 {
        (crc / 2) ^ 0xA001u16
    } else {
        crc / 2
    }
}

/// `count` bits of CRC-16/MODBUS shifted through the register.
pub open spec fn crc16_modbus_bits(crc: u16, count: nat) -> u16
    decreases count,
{
    if count == 0 {
        crc
    } else {
        crc16_modbus_bits(crc16_modbus_bit(crc), (count - 1) as nat)
    }
}

/// CRC-16/MODBUS of `data` as the `crc` catalogue defines it: width 16, polynomial `0x8005`,
/// register starting at `0xFFFF`, input and output reflected, no final xor. Each byte, in order,
/// is folded into the low end of the register and its eight bits shifted out.
pub open spec fn crc16_modbus(data: Seq<u8>) -> u16
    decreases data.len(),
{
    if data.len() == 0 {
        0xFFFF
    } else {
        crc16_modbus_bits(crc16_modbus(data.drop_last()) ^ (data.last() as u16), 8)
    }
}


/// `crc::Crc::<u16>::checksum` with the `CRC_16_MODBUS` algorithm of the `crc` catalogue: the
/// contract claims that the result is CRC-16/MODBUS, as [`crc16_modbus`] writes it out, of exactly
/// the bytes handed in.
#[verifier::external_body]
pub(crate) fn modbus_checksum(data: &[u8]) -> (checksum: u16)
    ensures
        checksum == crc16_modbus(data@),
{
    Crc::<u16>::new(&CRC_16_MODBUS).checksum(data)
}

#[verifier::external_type_specification]
#[verifier::external_body]
pub struct ExHeaplessString<const N: usize>(heapless::String<N>);

/// The bytes of the JSON text buffer.
pub uninterp spec fn json_text_bytes(text: heapless::String<JSON_CAPACITY>) -> Seq<u8>;

/// `heapless::String::new`: an empty string.
#[verifier::external_body]
pub(crate) fn new_json_text() -> (text: heapless::String<JSON_CAPACITY>)
    ensures
        json_text_bytes(text) == Seq::<u8>::empty(),
{
    heapless::String::new()
}

/// `heapless::String::push` of a one byte character: appended when there is room, refused and
/// left unchanged when there is not.
#[verifier::external_body]
pub(crate) fn push_json_char(text: &mut heapless::String<JSON_CAPACITY>, c: char) -> (pushed: bool)
    requires
        (c as u32) < 128,
    ensures
        pushed == (json_text_bytes(*old(text)).len() < JSON_CAPACITY),
        pushed ==> json_text_bytes(*final(text)) == json_text_bytes(*old(text)).push(c as u8),
        !pushed ==> *final(text) == *old(text),
{
    text.push(c).is_ok()
}

#[verifier::external_type_specification]
#[verifier::external_body]
pub struct ExUtf8Error(core::str::Utf8Error);

/// `core::str::from_utf8`: the bytes as a string slice when they are valid UTF-8, an error when
/// they are not. The error's contents (where the invalid sequence starts) are not described.
#[verifier::external_body]
pub(crate) fn str_from_utf8(bytes: &[u8]) -> (result: Result<&str, core::str::Utf8Error>)
    ensures
        result is Ok <==> valid_utf8(bytes@),
        result matches Ok(text) ==> text.spec_bytes() == bytes@,
{
    core::str::from_utf8(bytes)
}

/// `String`'s `FromIterator<char>`: the string made of exactly these characters, in order.
#[verifier::external_body]
pub(crate) fn string_from_chars(chars: Vec<char>) -> (text: String)
    ensures
        text@ == chars@,
{
    chars.into_iter().collect()
}

/// The bytes of a five character string.
pub uninterp spec fn short_text_bytes(text: heapless::String<5>) -> Seq<u8>;

/// `heapless::String::<5>::try_from(u16)`: writes the number with `Display`, which gives its
/// decimal digits in one piece, so the conversion succeeds exactly when they fit five bytes.
#[verifier::external_body]
pub(crate) fn short_text_from_u16(value: u16) -> (result: Result<heapless::String<5>, ()>)
    ensures
        result is Ok <==> decimal(value as nat).len() <= 5,
        result matches Ok(text) ==> short_text_bytes(text) == ascii_bytes(decimal(value as nat)),
{
    heapless::String::<5>::try_from(value)
}

/// `heapless::String::as_bytes` (through `Deref` to `str`): the JSON text's bytes.
#[verifier::external_body]
pub(crate) fn json_text_as_bytes(text: &heapless::String<JSON_CAPACITY>) -> (bytes: &[u8])
    ensures
        bytes@ == json_text_bytes(*text),
{
    text.as_bytes()
}

/// `heapless::String::as_bytes` (through `Deref` to `str`): the string's bytes.
#[verifier::external_body]
pub(crate) fn short_text_as_bytes(text: &heapless::String<5>) -> (bytes: &[u8])
    ensures
        bytes@ == short_text_bytes(*text),
{
    text.as_bytes()
}

/// `heapless::String::<3>::try_from(u16)`, taken out as its bytes: writes the number with
/// `Display`, which gives its decimal digits in one piece, so the conversion succeeds exactly when
/// they fit three bytes.
#[verifier::external_body]
pub(crate) fn three_digits_from_u16(value: u16) -> (result: Result<Vec<u8>, ()>)
    ensures
        result is Ok <==> decimal(value as nat).len() <= 3,
        result matches Ok(bytes) ==> bytes@ == ascii_bytes(decimal(value as nat)),
{
    match heapless::String::<3>::try_from(value) {
        Ok(text) => Ok(text.as_bytes().to_vec()),
        Err(()) => Err(()),
    }
}

} // verus!
