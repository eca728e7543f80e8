//! The SUBACK packet a broker answers a SUBSCRIBE with.

use vstd::prelude::*;
use vstd::slice::slice_subrange;

use super::variable_byte_integer::{self, decode_result};

verus! {

/// Why a SUBACK could not be read.
#[derive(Debug, Clone, Copy, PartialEq, Eq, Structural)]
pub enum SubscribeAcknowledgementError {
    InvalidPropertiesLength(variable_byte_integer::DecodeError),
}

/// Which SUBSCRIBE the broker is answering, and its reason code for each topic filter in it.
pub struct SubscribeAcknowledgement<'a> {
    pub packet_identifier: u16,
    /// One reason code for each subscribed topic, in the same order.
    pub reason_codes: &'a [u8],
}

/// Where the reason codes of a SUBACK start: behind the packet identifier, the property length and
/// the properties, which are skipped.
pub open spec fn reason_codes_start(buffer: Seq<u8>) -> int {
    let (length, after) = decode_result(buffer, 2);
    match length {
        Ok(length) => after + length,
        Err(_) => 0,
    }
}

impl<'a> SubscribeAcknowledgement<'a> {
    pub const TYPE: u8 = 9;

    /// Reads the packet identifier, skips the properties and keeps the rest as reason codes.
    pub fn read(buffer: &'a [u8]) -> (result: Result<Self, SubscribeAcknowledgementError>)
        requires
            buffer@.len() >= 2,
            decode_result(buffer@, 2).0 is Ok ==> reason_codes_start(buffer@) <= buffer@.len(),
        ensures
            match decode_result(buffer@, 2).0 {
                Err(error) => result matches Err(failure)
                    && failure == SubscribeAcknowledgementError::InvalidPropertiesLength(error),
                Ok(_) => result matches Ok(acknowledgement) && {
                    &&& acknowledgement.packet_identifier == buffer@[0] as int * 256 + buffer@[1]
                    &&& acknowledgement.reason_codes@ == buffer@.subrange(
                        reason_codes_start(buffer@),
                        buffer@.len() as int,
                    )
                },
            },
    {
        let high: u8 = buffer[0];
        let low: u8 = buffer[1];
        let packet_identifier: u16 = ((high as u16) << 8) | low as u16;
        assert(((high as u16) << 8) | low as u16 == high as int * 256 + low) by (bit_vector);
        let mut offset: usize = 2;
        let properties_length = match variable_byte_integer::decode(buffer, &mut offset) {
            Ok(length) => length,
            Err(error) => return Err(SubscribeAcknowledgementError::InvalidPropertiesLength(error)),
        };
        offset = offset + properties_length;
        let reason_codes = slice_subrange(buffer, offset, buffer.len());
        Ok(SubscribeAcknowledgement { packet_identifier, reason_codes })
    }
}

} // verus!
