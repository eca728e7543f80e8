//! Splitting a received packet into its fixed header and the rest.

use vstd::prelude::*;
use vstd::slice::slice_subrange;

use super::variable_byte_integer::{
    self, decode_result, encoded_length, encoding, lemma_decode_reads_back_encoding, DecodeError, MAX,
};

verus! {

/// Why a packet could not be split into its parts.
#[derive(Clone, Copy, Debug, PartialEq, Eq, Structural)]
pub enum GetPartsError {
    /// There is not even a fixed header.
    EmptyBuffer,
    /// The remaining length behind the first byte is not a valid variable byte integer.
    InvalidRemainingLength(DecodeError),
    /// The buffer ends before the remaining length does. The count is how many of the announced
    /// bytes are absent.
    MissingBytes(usize),
}

/// A packet's type and flags, from the first byte, and the bytes its remaining length spans.
pub struct PacketParts<'a> {
    /// The upper four bits of the first byte.
    pub packet_type: u8,
    /// The lower four bits of the first byte.
    pub flags: u8,
    /// What follows the remaining length, exactly as long as it announces.
    pub variable_header_and_payload: &'a [u8],
}

/// What [`get_parts`] makes of `buffer`: the type, the flags, and where the rest starts and ends.
pub open spec fn parts_result(buffer: Seq<u8>) -> Result<(u8, u8, int, int), GetPartsError> {
    if buffer.len() == 0 {
        Err(GetPartsError::EmptyBuffer)
    } else {
        let (length, end_of_header) = decode_result(buffer, 1);
        match length {
            Err(error) => Err(GetPartsError::InvalidRemainingLength(error)),
            Ok(remaining) => if buffer.len() < end_of_header + remaining {
                Err(GetPartsError::MissingBytes((end_of_header + remaining - buffer.len()) as usize))
            } else {
                Ok((buffer[0] / 16, buffer[0] % 16, end_of_header, end_of_header + remaining))
            },
        }
    }
}

/// Splits a packet into its type, its flags and the bytes its remaining length announces.
pub fn get_parts(buffer: &[u8]) -> (result: Result<PacketParts<'_>, GetPartsError>)
    ensures
        match (result, parts_result(buffer@)) {
            (Ok(parts), Ok((packet_type, flags, start, end))) => {
                &&& parts.packet_type == packet_type
                &&& parts.flags == flags
                &&& parts.variable_header_and_payload@ == buffer@.subrange(start, end)
            },
            (Err(error), Err(expected)) => error == expected,
            _ => false,
        },
{
    if buffer.len() == 0 {
        return Err(GetPartsError::EmptyBuffer);
    }
    let first: u8 = buffer[0];
    let packet_type = first >> 4;
    let flags = first & 0b0000_1111;
    assert(first >> 4 == first / 16 && first & 0b0000_1111 == first % 16) by (bit_vector);
    let mut offset: usize = 1;
    let remaining_length = match variable_byte_integer::decode(buffer, &mut offset) {
        Ok(length) => length,
        Err(error) => return Err(GetPartsError::InvalidRemainingLength(error)),
    };
    assert(offset <= 6) by {
        reveal_with_fuel(variable_byte_integer::decode_continuation, 5);
    }
    if buffer.len() < offset + remaining_length {
        return Err(GetPartsError::MissingBytes(offset + remaining_length - buffer.len()));
    }
    let variable_header_and_payload = slice_subrange(buffer, offset, offset + remaining_length);
    Ok(PacketParts { packet_type, flags, variable_header_and_payload })
}

/// What a packet writer frames, [`get_parts`] takes apart again: a first byte, the remaining
/// length as a variable byte integer and exactly that many bytes split back into the first byte's
/// type and flags and those bytes.
pub proof fn lemma_written_packet_splits_back(first: u8, body: Seq<u8>)
    requires
        body.len() <= MAX,
    ensures
        ({
            let packet = seq![first] + encoding(body.len()) + body;
            let start = (1 + encoded_length(body.len())) as int;
            &&& parts_result(packet) == Ok::<(u8, u8, int, int), GetPartsError>(
                (first / 16, first % 16, start, packet.len() as int),
            )
            &&& packet.subrange(start, packet.len() as int) == body
        }),
{
    let packet = seq![first] + encoding(body.len()) + body;
    let length = body.len() as usize;
    variable_byte_integer::lemma_encoding_length(body.len());
    assert(packet.subrange(1, 1 + encoding(length as nat).len() as int) =~= encoding(length as nat));
    lemma_decode_reads_back_encoding(packet, 1, length);
    assert(packet.subrange(1 + encoded_length(body.len()) as int, packet.len() as int) =~= body);
}

} // verus!
