//! What the firmware is configured with when it is built: the broker's port comes in as text and
//! is read as a number; the timeouts are fixed.

use vstd::prelude::*;
use vstd::string::StringSliceAdditionalSpecFns;

use crate::set_point::{all_digits, digits_value, is_digit, lemma_digits_value_monotonic};

verus! {

/// The topic the Home Assistant discovery payload is published on. The prefix is
/// `homeassistant`, which can be changed in Home Assistant's configuration.
pub const DISCOVERY_TOPIC: &'static str = "homeassistant/fan/fancontroller/config";

/// The longest time between two packets to the broker, in seconds. The broker disconnects a
/// client it has not heard from for 1.5 times this.
pub const KEEP_ALIVE_SECONDS: u16 = 60;

/// How long to wait for a packet that answers one sent to the broker, in seconds.
pub const MQTT_TIMEOUT_SECONDS: u64 = 60;

/// How long to wait for an answer from a fan, in seconds.
pub const FAN_TIMEOUT_SECONDS: u64 = 5;

/// Reads a decimal number made only of digits, as the port is given when the firmware is built.
/// Anything else stops the build, so it is not accepted here either.
pub fn parse_u16(string: &str) -> (value: u16)
    requires
        all_digits(string.spec_bytes()),
        digits_value(string.spec_bytes()) <= 0xFFFF,
    ensures
        value == digits_value(string.spec_bytes()),
{
    let bytes = string.as_bytes();
    let mut out: u16 = 0;
    let mut index: usize = 0;
    while index < bytes.len()
        invariant
            bytes@ == string.spec_bytes(),
            all_digits(bytes@),
            digits_value(bytes@) <= 0xFFFF,
            index <= bytes@.len(),
            out == digits_value(bytes@.subrange(0, index as int)),
        decreases bytes@.len() - index,
    {
        let byte = bytes[index];
        assert(is_digit(bytes@[index as int]));
        proof {
            lemma_digits_value_monotonic(bytes@, index + 1);
            assert(bytes@.subrange(0, index + 1).drop_last() =~= bytes@.subrange(0, index as int));
        }
        out = out * 10 + (byte - 48) as u16;
        index = index + 1;
    }
    assert(bytes@.subrange(0, index as int) =~= bytes@);
    out
}

} // verus!
