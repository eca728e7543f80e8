//! The address of a device on the bus.

use vstd::prelude::*;

verus! {

/// A device address: `0x02` and `0x03` for the fans, `0x04` for the bypass relay.
#[derive(Debug, Clone, Copy, PartialEq, Eq, Structural)]
pub struct Address(u8);

impl Address {
    pub closed spec fn value(&self) -> u8 {
        self.0
    }

    pub fn new(value: u8) -> (address: Self)
        ensures
            address.value() == value,
    {
        Self(value)
    }

    /// The address as the first byte of a frame.
    pub fn get(&self) -> (value: u8)
        ensures
            value == self.value(),
    {
        self.0
    }
}

impl From<u8> for Address {
    fn from(value: u8) -> (address: Self)
        ensures
            address.value() == value,
    {
        Self(value)
    }
}

impl vstd::std_specs::convert::FromSpecImpl<u8> for Address {
    open spec fn obeys_from_spec() -> bool {
        true
    }

    closed spec fn from_spec(value: u8) -> Self {
        Address(value)
    }
}

} // verus!
