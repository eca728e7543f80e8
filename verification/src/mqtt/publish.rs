//! The PUBLISH packet, which carries a message on a topic in either direction.

use vstd::prelude::*;
use vstd::slice::slice_subrange;
use vstd::string::StringSliceAdditionalSpecFns;
use vstd::utf8::valid_utf8;

use crate::bytes::{
    length_prefixed, lemma_overwritten_twice, overwritten, write_byte, write_bytes,
    write_length_prefixed,
};
use crate::trusted::str_from_utf8;
use super::packet::{lemma_written_packet_splits_back, parts_result, GetPartsError};
use super::variable_byte_integer::{
    self, decode_result, encode_result, encoded_length, encoding, VariableByteIntegerEncodeError,
    MAX,
};

verus! {

/// A message and the topic it is published on.
pub struct Publish<'a> {
    pub topic_name: &'a str,
    pub payload: &'a [u8],
}

/// Why a PUBLISH could not be written.
#[derive(Debug, PartialEq, Eq)]
pub enum EncodeError {
    /// There is no room at all.
    EmptyBuffer,
    /// There is less room behind the remaining length than the whole packet takes.
    BufferTooSmall { required: usize, available: usize },
    /// The remaining length could not be written.
    VariableByteIntegerError(VariableByteIntegerEncodeError),
}

/// Why a received PUBLISH could not be read.
#[derive(Debug)]
pub enum ReadError {
    /// Quality of service above 0 adds a packet identifier, which is not read.
    UnsupportedQualityOfServiceLevel(u8),
    VariableByteIntegerError(variable_byte_integer::DecodeError),
    ZeroLengthTopicName,
    InvalidTopicName(core::str::Utf8Error),
}

/// The remaining length of a PUBLISH for a topic and payload of these lengths: the topic behind
/// its two byte length, an empty property list, and the payload.
pub open spec fn remaining_length(topic_name: Seq<u8>, payload: Seq<u8>) -> int {
    (3 + topic_name.len() + payload.len()) as int
}

/// A PUBLISH of `payload` on `topic_name` at quality of service 0, not retained, without
/// properties.
pub open spec fn publish_packet(topic_name: Seq<u8>, payload: Seq<u8>) -> Seq<u8> {
    seq![0x30u8] + encoding(remaining_length(topic_name, payload) as nat) + length_prefixed(
        topic_name,
    ) + seq![0u8] + payload
}

/// How [`Publish::read`] takes a buffer apart.
pub enum ReadLayout {
    /// Quality of service above 0.
    Refused(u8),
    /// The leading remaining length is not a valid variable byte integer.
    RemainingLength(variable_byte_integer::DecodeError),
    ZeroLengthTopicName,
    /// The topic name is not UTF-8.
    InvalidTopicName,
    /// The property length is not a valid variable byte integer.
    PropertiesLength(variable_byte_integer::DecodeError),
    /// Reading would run past the buffer or the remaining length.
    OutOfBounds,
    /// The topic name and the payload span these ranges.
    Reads { topic_start: int, topic_end: int, payload_start: int, payload_end: int },
}

/// How [`Publish::read`] takes `buffer` apart. It expects a remaining length in front of the
/// variable header, and takes the payload to end where that length, counted from the start of the
/// buffer, ends.
pub open spec fn read_layout(flags: u8, buffer: Seq<u8>) -> ReadLayout {
    let quality_of_service = (flags % 8 / 2) as u8;
    if quality_of_service > 0 {
        ReadLayout::Refused(quality_of_service)
    } else {
        let (remaining, after_length) = decode_result(buffer, 0);
        match remaining {
            Err(error) => ReadLayout::RemainingLength(error),
            Ok(remaining) => if after_length + 2 > buffer.len() {
                ReadLayout::OutOfBounds
            } else {
                let topic_length = buffer[after_length] as int * 256 + buffer[after_length + 1];
                let topic_start = after_length + 2;
                let topic_end = topic_start + topic_length;
                if topic_length == 0 {
                    ReadLayout::ZeroLengthTopicName
                } else if topic_end > buffer.len() {
                    ReadLayout::OutOfBounds
                } else if !valid_utf8(buffer.subrange(topic_start, topic_end)) {
                    ReadLayout::InvalidTopicName
                } else {
                    let (properties, after_properties) = decode_result(buffer, topic_end);
                    match properties {
                        Err(error) => ReadLayout::PropertiesLength(error),
                        Ok(properties) => {
                            let payload_start = after_properties + properties;
                            if remaining < payload_start || remaining > buffer.len() {
                                ReadLayout::OutOfBounds
                            } else {
                                ReadLayout::Reads {
                                    topic_start,
                                    topic_end,
                                    payload_start,
                                    payload_end: remaining as int,
                                }
                            }
                        },
                    }
                }
            },
        }
    }
}

/// Whether [`Publish::read`] can take `buffer` apart without running off it: see [`read_layout`].
pub fn is_readable(flags: u8, buffer: &[u8]) -> (readable: bool)
    ensures
        readable == !(read_layout(flags, buffer@) is OutOfBounds),
{
    let quality_of_service = flags % 8 / 2;
    if quality_of_service > 0 {
        return true;
    }
    let mut offset: usize = 0;
    let remaining = match variable_byte_integer::decode(buffer, &mut offset) {
        Ok(remaining) => remaining,
        Err(_) => return true,
    };
    assert(offset <= buffer@.len()) by {
        reveal_with_fuel(variable_byte_integer::decode_continuation, 5);
    }
    if buffer.len() - offset < 2 {
        return false;
    }
    let topic_length = buffer[offset] as usize * 256 + buffer[offset + 1] as usize;
    let topic_start = offset + 2;
    if topic_length == 0 {
        return true;
    }
    if topic_length > buffer.len() - topic_start {
        return false;
    }
    let topic_end = topic_start + topic_length;
    if str_from_utf8(slice_subrange(buffer, topic_start, topic_end)).is_err() {
        return true;
    }
    let mut after_properties: usize = topic_end;
    let properties = match variable_byte_integer::decode(buffer, &mut after_properties) {
        Ok(properties) => properties,
        Err(_) => return true,
    };
    assert(after_properties <= buffer@.len()) by {
        reveal_with_fuel(variable_byte_integer::decode_continuation, 5);
    }
    if remaining > buffer.len() {
        return false;
    }
    if properties > remaining || after_properties > remaining - properties {
        return false;
    }
    true
}

impl<'a> Publish<'a> {
    pub const TYPE: u8 = 3;

    /// Writes the packet at `offset` without checking for room first, and advances the offset.
    /// Refuses a remaining length the buffer cannot hold behind the first byte, which has then
    /// already been written.
    pub fn write(&self, buffer: &mut [u8], offset: &mut usize) -> (result: Result<(), EncodeError>)
        requires
            *old(offset) < old(buffer)@.len(),
            remaining_length(self.topic_name.spec_bytes(), self.payload@) < usize::MAX - 8,
            encode_result(
                remaining_length(self.topic_name.spec_bytes(), self.payload@) as usize,
                old(buffer)@.len() - *old(offset) - 1,
            ) is Ok ==> *old(offset) + publish_packet(self.topic_name.spec_bytes(), self.payload@).len()
                <= old(buffer)@.len(),
        ensures
            ({
                let remaining = remaining_length(self.topic_name.spec_bytes(), self.payload@) as usize;
                let packet = publish_packet(self.topic_name.spec_bytes(), self.payload@);
                match encode_result(remaining, old(buffer)@.len() - *old(offset) - 1) {
                    Err(error) => {
                        &&& result == Err::<(), EncodeError>(EncodeError::VariableByteIntegerError(error))
                        &&& *final(offset) == *old(offset) + 1
                        &&& final(buffer)@ == overwritten(old(buffer)@, *old(offset) as int, seq![0x30u8])
                    },
                    Ok(_) => {
                        &&& result is Ok
                        &&& *final(offset) == *old(offset) + packet.len()
                        &&& final(buffer)@ == overwritten(old(buffer)@, *old(offset) as int, packet)
                    },
                }
            }),
    {
        self.try_encode(buffer, offset)
    }

    /// Writes the packet at `offset` without checking for room first, and advances the offset.
    /// Refuses a remaining length the buffer cannot hold behind the first byte, which has then
    /// already been written.
    pub fn try_encode(&self, buffer: &mut [u8], offset: &mut usize) -> (result: Result<(), EncodeError>)
        requires
            *old(offset) < old(buffer)@.len(),
            remaining_length(self.topic_name.spec_bytes(), self.payload@) < usize::MAX - 8,
            encode_result(
                remaining_length(self.topic_name.spec_bytes(), self.payload@) as usize,
                old(buffer)@.len() - *old(offset) - 1,
            ) is Ok ==> *old(offset) + publish_packet(self.topic_name.spec_bytes(), self.payload@).len()
                <= old(buffer)@.len(),
        ensures
            ({
                let remaining = remaining_length(self.topic_name.spec_bytes(), self.payload@) as usize;
                let packet = publish_packet(self.topic_name.spec_bytes(), self.payload@);
                match encode_result(remaining, old(buffer)@.len() - *old(offset) - 1) {
                    Err(error) => {
                        &&& result == Err::<(), EncodeError>(EncodeError::VariableByteIntegerError(error))
                        &&& *final(offset) == *old(offset) + 1
                        &&& final(buffer)@ == overwritten(old(buffer)@, *old(offset) as int, seq![0x30u8])
                    },
                    Ok(_) => {
                        &&& result is Ok
                        &&& *final(offset) == *old(offset) + packet.len()
                        &&& final(buffer)@ == overwritten(old(buffer)@, *old(offset) as int, packet)
                    },
                }
            }),
    {
        let topic_name = self.topic_name.as_bytes();
        let remaining = 2 + topic_name.len() + 1 + self.payload.len();
        let ghost start = *offset as int;
        let ghost prior = buffer@;
        write_byte(buffer, offset, Self::TYPE << 4);
        assert(Self::TYPE << 4 == 0x30u8) by (bit_vector);
        match variable_byte_integer::encode(remaining, buffer, offset) {
            Ok(_) => {},
            Err(error) => {
                return Err(EncodeError::VariableByteIntegerError(error));
            },
        }
        proof {
            variable_byte_integer::lemma_encoding_length(remaining as nat);
            lemma_overwritten_twice(prior, start, seq![0x30u8], encoding(remaining as nat));
        }
        write_rest(buffer, offset, topic_name, self.payload);
        proof {
            lemma_overwritten_twice(
                prior,
                start,
                seq![0x30u8] + encoding(remaining as nat),
                length_prefixed(topic_name@) + seq![0u8] + self.payload@,
            );
            assert(seq![0x30u8] + encoding(remaining as nat) + (length_prefixed(topic_name@) + seq![
                0u8,
            ] + self.payload@) =~= publish_packet(topic_name@, self.payload@));
        }
        Ok(())
    }

    /// Reads a PUBLISH at quality of service 0: a remaining length, the topic name behind its
    /// two byte length, a property list that is skipped, and the payload up to where the
    /// remaining length ends. The retain and duplicate flags are not looked at.
    pub fn read(flags: u8, buffer: &'a [u8]) -> (result: Result<Self, ReadError>)
        requires
            !(read_layout(flags, buffer@) is OutOfBounds),
        ensures
            match read_layout(flags, buffer@) {
                ReadLayout::Refused(level) => result matches Err(
                    ReadError::UnsupportedQualityOfServiceLevel(found),
                ) && found == level,
                ReadLayout::RemainingLength(error) => result matches Err(
                    ReadError::VariableByteIntegerError(found),
                ) && found == error,
                ReadLayout::ZeroLengthTopicName => result matches Err(ReadError::ZeroLengthTopicName),
                ReadLayout::InvalidTopicName => result matches Err(ReadError::InvalidTopicName(_)),
                ReadLayout::PropertiesLength(error) => result matches Err(
                    ReadError::VariableByteIntegerError(found),
                ) && found == error,
                ReadLayout::OutOfBounds => false,
                ReadLayout::Reads { topic_start, topic_end, payload_start, payload_end } => result matches Ok(
                    publish,
                ) && publish.topic_name.spec_bytes() == buffer@.subrange(topic_start, topic_end)
                    && publish.payload@ == buffer@.subrange(payload_start, payload_end),
            },
    {
        let quality_of_service_level = (flags & 0b0000_0110) >> 1;
        assert((flags & 0b0000_0110) >> 1 == (flags % 8 / 2) as u8) by (bit_vector);
        if quality_of_service_level > 0 {
            return Err(ReadError::UnsupportedQualityOfServiceLevel(quality_of_service_level));
        }
        let mut offset: usize = 0;
        let remaining_length = match variable_byte_integer::decode(buffer, &mut offset) {
            Ok(length) => length,
            Err(error) => return Err(ReadError::VariableByteIntegerError(error)),
        };
        assert(offset <= 5) by {
            reveal_with_fuel(variable_byte_integer::decode_continuation, 5);
        }
        let high: u8 = buffer[offset];
        let low: u8 = buffer[offset + 1];
        let topic_length: u16 = ((high as u16) << 8) | low as u16;
        assert(((high as u16) << 8) | low as u16 == high as int * 256 + low) by (bit_vector);
        offset = offset + 2;
        if topic_length == 0 {
            return Err(ReadError::ZeroLengthTopicName);
        }
        let topic_bytes = slice_subrange(buffer, offset, offset + topic_length as usize);
        let topic_name = match str_from_utf8(topic_bytes) {
            Ok(topic_name) => topic_name,
            Err(error) => return Err(ReadError::InvalidTopicName(error)),
        };
        offset = offset + topic_length as usize;
        let properties_length = match variable_byte_integer::decode(buffer, &mut offset) {
            Ok(length) => length,
            Err(error) => return Err(ReadError::VariableByteIntegerError(error)),
        };
        proof {
            crate::mqtt::connect_acknowledgement::lemma_decode_advances(
                buffer@,
                offset - 0,
            );
        }
        offset = offset + properties_length;
        let payload_length = remaining_length - offset;
        let payload = slice_subrange(buffer, offset, offset + payload_length);
        Ok(Publish { topic_name, payload })
    }
}

/// Writes the topic name behind its length, an empty property list and the payload.
fn write_rest(buffer: &mut [u8], offset: &mut usize, topic_name: &[u8], payload: &[u8])
    requires
        *old(offset) + 3 + topic_name@.len() + payload@.len() <= old(buffer)@.len(),
    ensures
        *final(offset) == *old(offset) + 3 + topic_name@.len() + payload@.len(),
        final(buffer)@ == overwritten(
            old(buffer)@,
            *old(offset) as int,
            length_prefixed(topic_name@) + seq![0u8] + payload@,
        ),
{
    let ghost start = *offset as int;
    let ghost prior = buffer@;
    write_length_prefixed(buffer, offset, topic_name);
    write_byte(buffer, offset, 0);
    proof {
        lemma_overwritten_twice(prior, start, length_prefixed(topic_name@), seq![0u8]);
    }
    write_bytes(buffer, offset, payload);
    proof {
        lemma_overwritten_twice(prior, start, length_prefixed(topic_name@) + seq![0u8], payload@);
    }
}

/// What [`encode_checked`] does with a buffer of `length` bytes, written from its start.
pub open spec fn checked_encode_room(topic_name: Seq<u8>, payload: Seq<u8>, length: int) -> Result<(), EncodeError> {
    let remaining = remaining_length(topic_name, payload);
    if length == 0 {
        Err(EncodeError::EmptyBuffer)
    } else {
        match encode_result(remaining as usize, length - 1) {
            Err(error) => Err(EncodeError::VariableByteIntegerError(error)),
            Ok(length_length) => {
                let required = 1 + length_length + remaining;
                let available = length - 1 - length_length;
                if required > available {
                    Err(EncodeError::BufferTooSmall { required: required as usize, available: available as usize })
                } else {
                    Ok(())
                }
            },
        }
    }
}

/// A PUBLISH as [`encode_checked`] writes it splits back, through
/// [`get_parts`](super::packet::get_parts), into type 3, no flags, and the topic behind its
/// length, the empty property list and the payload.
pub proof fn lemma_written_publish_splits_back(topic_name: Seq<u8>, payload: Seq<u8>)
    requires
        remaining_length(topic_name, payload) <= MAX,
    ensures
        ({
            let packet = publish_packet(topic_name, payload);
            let start = (1 + encoded_length(remaining_length(topic_name, payload) as nat)) as int;
            &&& parts_result(packet) == Ok::<(u8, u8, int, int), GetPartsError>(
                (Publish::TYPE, 0u8, start, packet.len() as int),
            )
            &&& packet.subrange(start, packet.len() as int) == length_prefixed(topic_name) + seq![0u8]
                + payload
        }),
{
    let body = length_prefixed(topic_name) + seq![0u8] + payload;
    assert(publish_packet(topic_name, payload) =~= seq![0x30u8] + encoding(body.len()) + body);
    lemma_written_packet_splits_back(0x30u8, body);
}

/// Writes a PUBLISH of `payload` on `topic_name` from the start of `buffer`, which the offset has
/// to point at, after checking the room.
///
/// The room is checked only once the fixed header is written, and against the whole packet, so
/// the buffer has to hold the fixed header twice over plus the rest. A failed check leaves behind
/// what was written up to it.
pub fn encode_checked(topic_name: &str, payload: &[u8], buffer: &mut [u8], offset: &mut usize) -> (result: Result<
    (),
    EncodeError,
>)
    requires
        *old(offset) == 0,
        remaining_length(topic_name.spec_bytes(), payload@) < usize::MAX - 8,
    ensures
        result == checked_encode_room(topic_name.spec_bytes(), payload@, old(buffer)@.len() as int),
        ({
            let remaining = remaining_length(topic_name.spec_bytes(), payload@);
            let header = seq![0x30u8] + encoding(remaining as nat);
            let packet = publish_packet(topic_name.spec_bytes(), payload@);
            match result {
                Err(EncodeError::EmptyBuffer) => *final(offset) == 0 && final(buffer)@ == old(buffer)@,
                Err(EncodeError::VariableByteIntegerError(_)) => *final(offset) == 1
                    && final(buffer)@ == overwritten(old(buffer)@, 0, seq![0x30u8]),
                Err(EncodeError::BufferTooSmall { .. }) => *final(offset) == header.len()
                    && final(buffer)@ == overwritten(old(buffer)@, 0, header),
                Ok(()) => *final(offset) == packet.len() && final(buffer)@ == overwritten(
                    old(buffer)@,
                    0,
                    packet,
                ),
            }
        }),
{
    if buffer.len() == 0 {
        return Err(EncodeError::EmptyBuffer);
    }
    let topic_bytes = topic_name.as_bytes();
    let ghost prior = buffer@;
    write_byte(buffer, offset, Publish::TYPE << 4);
    assert(Publish::TYPE << 4 == 0x30u8) by (bit_vector);
    let remaining = 2 + topic_bytes.len() + 1 + payload.len();
    let length_length = match variable_byte_integer::encode(remaining, buffer, offset) {
        Ok(length) => length,
        Err(error) => return Err(EncodeError::VariableByteIntegerError(error)),
    };
    proof {
        variable_byte_integer::lemma_encoding_length(remaining as nat);
        lemma_overwritten_twice(prior, 0, seq![0x30u8], encoding(remaining as nat));
    }
    let required = 1 + length_length + remaining;
    if required > buffer.len() - *offset {
        return Err(EncodeError::BufferTooSmall { required, available: buffer.len() - *offset });
    }
    write_rest(buffer, offset, topic_bytes, payload);
    proof {
        lemma_overwritten_twice(
            prior,
            0,
            seq![0x30u8] + encoding(remaining as nat),
            length_prefixed(topic_bytes@) + seq![0u8] + payload@,
        );
        assert(seq![0x30u8] + encoding(remaining as nat) + (length_prefixed(topic_bytes@) + seq![0u8]
            + payload@) =~= publish_packet(topic_bytes@, payload@));
    }
    Ok(())
}

} // verus!
