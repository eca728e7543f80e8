//! The address of a register or a coil inside a device.

use vstd::prelude::*;

verus! {

/// A register address, such as `0xD001` for the fan's set point.
#[derive(Debug, Clone, Copy, PartialEq, Eq, Structural)]
pub struct Address(u16);

impl Address {
    pub closed spec fn value(&self) -> u16 {
        self.0
    }

    pub fn new(value: u16) -> (address: Self)
        ensures
            address.value() == value,
    {
        Self(value)
    }

    /// The address as two bytes of a frame.
    pub fn get(&self) -> (value: u16)
        ensures
            value == self.value(),
    {
        self.0
    }
}

impl From<u16> for Address {
    fn from(value: u16) -> (address: Self)
        ensures
            address.value() == value,
    {
        Self(value)
    }
}

impl vstd::std_specs::convert::FromSpecImpl<u16> for Address {
    open spec fn obeys_from_spec() -> bool {
        true
    }

    closed spec fn from_spec(value: u16) -> Self {
        Address(value)
    }
}

/// A coil address. Its own type so it cannot be confused with a register of the same number on
/// the same device: holding register `0x0000` of the relay module is the module's own address.
#[derive(Debug, Clone, Copy, PartialEq, Eq, Structural)]
pub struct CoilAddress(u16);

impl CoilAddress {
    pub closed spec fn value(&self) -> u16 {
        self.0
    }

    pub fn new(value: u16) -> (address: Self)
        ensures
            address.value() == value,
    {
        Self(value)
    }

    pub fn get(&self) -> (value: u16)
        ensures
            value == self.value(),
    {
        self.0
    }
}

} // verus!
