//! The PINGREQ the client sends to keep the connection alive, and the PINGRESP it gets back.

use vstd::prelude::*;

use crate::bytes::overwritten;

verus! {

/// A keep alive ping.
pub struct PingRequest;

impl PingRequest {
    pub const TYPE: u8 = 12;

    /// Writes the fixed header at `offset`: the packet type, then a zero remaining length.
    ///
    /// Only the type byte is counted: the offset is left pointing at the zero, so a packet
    /// written behind it would overwrite the remaining length.
    pub fn encode(&self, buffer: &mut [u8], offset: &mut usize)
        requires
            *old(offset) + 1 < old(buffer)@.len(),
        ensures
            *final(offset) == *old(offset) + 1,
            final(buffer)@ == overwritten(old(buffer)@, *old(offset) as int, seq![0xC0u8, 0u8]),
    {
        buffer[*offset] = 0xC0;
        *offset = *offset + 1;
        buffer[*offset] = 0;
        assert(buffer@ =~= overwritten(old(buffer)@, *old(offset) as int, seq![0xC0u8, 0u8]));
    }
}

/// The broker's answer to a ping. It carries nothing.
#[derive(Debug, Clone, Copy, PartialEq, Eq)]
pub struct PingResponse;

impl PingResponse {
    pub const TYPE: u8 = 13;

    /// A ping response has no variable header or payload, so there is nothing to read.
    pub fn decode(flags: u8, variable_header_and_payload: &[u8]) -> (response: Self) {
        PingResponse
    }
}

} // verus!
