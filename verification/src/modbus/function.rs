//! The request frames: eight bytes each, the device address, the function code, two 16 bit fields
//! most significant byte first, and the checksum least significant byte first.

use vstd::prelude::*;

use crate::trusted::{crc16_modbus, modbus_checksum};
use super::device;
use super::register::{self, CoilAddress};

verus! {

/// Reads the state of a run of coils. The relay module answers only the eight wide form its
/// manual prints, whatever it has.
pub const READ_COILS: u8 = 0x01;
pub const READ_HOLDING_REGISTERS: u8 = 0x03;
pub const READ_INPUT_REGISTERS: u8 = 0x04;
pub const WRITE_SINGLE_REGISTER: u8 = 0x06;
/// Closes or opens one coil. Like [`WRITE_SINGLE_REGISTER`] it is confirmed by the device sending
/// the request back byte for byte.
pub const WRITE_SINGLE_COIL: u8 = 0x05;
/// A device reports an error by answering with the function code of the request and this bit set.
pub const EXCEPTION_MASK: u8 = 0x80;

/// The most registers one request may ask for. The fan answers with at most 80 bytes and refuses
/// anything longer with exception `0x03`.
pub const MAX_COUNT: usize = 37;

/// The first six bytes of a request: address, function code and the two fields.
pub open spec fn frame_data(device: u8, code: u8, first: u16, second: u16) -> Seq<u8> {
    seq![
        device,
        code,
        (first / 256) as u8,
        (first % 256) as u8,
        (second / 256) as u8,
        (second % 256) as u8,
    ]
}

/// A whole request frame: the data and its CRC, least significant byte first.
pub open spec fn frame(device: u8, code: u8, first: u16, second: u16) -> Seq<u8> {
    let data = frame_data(device, code, first, second);
    let checksum = crc16_modbus(data);
    data + seq![(checksum % 256) as u8, (checksum / 256) as u8]
}

/// Whether the last two bytes of `frame` are the CRC of the rest, least significant byte first.
pub open spec fn checksum_matches(frame: Seq<u8>) -> bool {
    let checksum = crc16_modbus(frame.subrange(0, frame.len() - 2));
    &&& frame.len() >= 2
    &&& frame[frame.len() - 2] == (checksum % 256) as u8
    &&& frame[frame.len() - 1] == (checksum / 256) as u8
}

/// Every request frame carries a valid checksum.
pub proof fn lemma_frame_checksum_matches(device: u8, code: u8, first: u16, second: u16)
    ensures
        checksum_matches(frame(device, code, first, second)),
        frame(device, code, first, second).len() == 8,
{
    let whole = frame(device, code, first, second);
    assert(whole.subrange(0, 6) =~= frame_data(device, code, first, second));
}

/// Builds a request frame.
pub(crate) fn build_frame(device: u8, code: u8, first: u16, second: u16) -> (bytes: [u8; 8])
    ensures
        bytes@ == frame(device, code, first, second),
{
    let mut data: [u8; 8] = [
        device,
        code,
        (first / 256) as u8,
        (first % 256) as u8,
        (second / 256) as u8,
        (second % 256) as u8,
        0,
        0,
    ];
    let checksum = modbus_checksum(data.as_slice().split_at(6).0);
    proof {
        assert(data@.subrange(0, 6) =~= frame_data(device, code, first, second));
    }
    data[6] = (checksum % 256) as u8;
    data[7] = (checksum / 256) as u8;
    assert(data@ =~= frame(device, code, first, second));
    data
}

/// Reads a single coil: asking for exactly one keeps the answer to a single data byte.
pub struct ReadCoil([u8; 8]);

impl ReadCoil {
    /// How many coils are read.
    pub const COUNT: u16 = 1;

    pub closed spec fn bytes(&self) -> Seq<u8> {
        self.0@
    }

    pub fn new(device_address: device::Address, coil_address: CoilAddress) -> (request: Self)
        ensures
            request.bytes() == frame(device_address.value(), READ_COILS, coil_address.value(), 1),
    {
        ReadCoil(build_frame(device_address.get(), READ_COILS, coil_address.get(), Self::COUNT))
    }

    pub fn device_address(&self) -> (address: device::Address)
        ensures
            address.value() == self.bytes()[0],
    {
        device::Address::new(self.0[0])
    }

    pub fn as_ref(&self) -> (bytes: &[u8])
        ensures
            bytes@ == self.bytes(),
    {
        self.0.as_slice()
    }
}

/// Reads a run of `COUNT` coils starting at the first one. The count is the device's to dictate:
/// the relay module answers only the eight wide read.
pub struct ReadCoils<const COUNT: u16>([u8; 8]);

impl<const COUNT: u16> ReadCoils<COUNT> {
    pub closed spec fn bytes(&self) -> Seq<u8> {
        self.0@
    }

    pub fn new(device_address: device::Address, first_coil: register::Address) -> (request: Self)
        ensures
            request.bytes() == frame(device_address.value(), READ_COILS, first_coil.value(), COUNT),
    {
        ReadCoils(build_frame(device_address.get(), READ_COILS, first_coil.get(), COUNT))
    }

    pub fn device_address(&self) -> (address: device::Address)
        ensures
            address.value() == self.bytes()[0],
    {
        device::Address::new(self.0[0])
    }

    pub fn as_ref(&self) -> (bytes: &[u8])
        ensures
            bytes@ == self.bytes(),
    {
        self.0.as_slice()
    }
}

/// Reads a single holding register, which keeps the answer a fixed length.
pub struct ReadHoldingRegister([u8; 8]);

impl ReadHoldingRegister {
    /// How many registers are read.
    pub const COUNT: u16 = 1;

    pub closed spec fn bytes(&self) -> Seq<u8> {
        self.0@
    }

    pub fn new(device_address: device::Address, register_address: register::Address) -> (request: Self)
        ensures
            request.bytes() == frame(
                device_address.value(),
                READ_HOLDING_REGISTERS,
                register_address.value(),
                1,
            ),
    {
        ReadHoldingRegister(
            build_frame(
                device_address.get(),
                READ_HOLDING_REGISTERS,
                register_address.get(),
                Self::COUNT,
            ),
        )
    }

    pub fn device_address(&self) -> (address: device::Address)
        ensures
            address.value() == self.bytes()[0],
    {
        device::Address::new(self.0[0])
    }

    pub fn as_ref(&self) -> (bytes: &[u8])
        ensures
            bytes@ == self.bytes(),
    {
        self.0.as_slice()
    }
}

/// A read of input registers described by its start and count rather than as a frame.
pub struct ReadInputRegister {
    pub address: u16,
    pub number_of_registers: u16,
}

impl ReadInputRegister {
    /// The function code of a read of input registers.
    pub const CODE: u8 = 0x04;

    pub fn new(address: u16, number_of_registers: u16) -> (request: Self)
        ensures
            request.address == address,
            request.number_of_registers == number_of_registers,
    {
        Self { address, number_of_registers }
    }
}

/// Reads a run of `COUNT` input registers. The count is part of the type so the request and the
/// answer cannot disagree about how many registers are in flight.
pub struct ReadInputRegisters<const COUNT: usize>([u8; 8]);

impl<const COUNT: usize> ReadInputRegisters<COUNT> {
    pub closed spec fn bytes(&self) -> Seq<u8> {
        self.0@
    }

    /// The fan refuses a count of zero and a count above [`MAX_COUNT`] with exception `0x03`.
    pub fn new(device_address: device::Address, start_address: register::Address) -> (request: Self)
        requires
            1 <= COUNT <= MAX_COUNT,
        ensures
            request.bytes() == frame(
                device_address.value(),
                READ_INPUT_REGISTERS,
                start_address.value(),
                COUNT as u16,
            ),
    {
        ReadInputRegisters(
            build_frame(
                device_address.get(),
                READ_INPUT_REGISTERS,
                start_address.get(),
                COUNT as u16,
            ),
        )
    }

    pub fn device_address(&self) -> (address: device::Address)
        ensures
            address.value() == self.bytes()[0],
    {
        device::Address::new(self.0[0])
    }

    pub fn as_ref(&self) -> (bytes: &[u8])
        ensures
            bytes@ == self.bytes(),
    {
        self.0.as_slice()
    }
}

/// Writes one holding register, such as the fan's set point.
pub struct WriteHoldingRegister([u8; 8]);

impl WriteHoldingRegister {
    pub closed spec fn bytes(&self) -> Seq<u8> {
        self.0@
    }

    pub fn new(
        device_address: device::Address,
        register_address: register::Address,
        value: u16,
    ) -> (request: Self)
        ensures
            request.bytes() == frame(
                device_address.value(),
                WRITE_SINGLE_REGISTER,
                register_address.value(),
                value,
            ),
    {
        WriteHoldingRegister(
            build_frame(device_address.get(), WRITE_SINGLE_REGISTER, register_address.get(), value),
        )
    }

    pub fn device_address(&self) -> (address: device::Address)
        ensures
            address.value() == self.bytes()[0],
    {
        device::Address::new(self.0[0])
    }

    pub fn as_ref(&self) -> (bytes: &[u8])
        ensures
            bytes@ == self.bytes(),
    {
        self.0.as_slice()
    }
}

/// The value a coil write carries to close the contact.
pub const CLOSED: u16 = 0xFF00;
/// The value a coil write carries to open the contact.
pub const OPEN: u16 = 0x0000;

/// Closes or opens one coil. The value is [`CLOSED`] or [`OPEN`] and nothing else.
pub struct WriteSingleCoil([u8; 8]);

impl WriteSingleCoil {
    pub closed spec fn bytes(&self) -> Seq<u8> {
        self.0@
    }

    pub fn new(
        device_address: device::Address,
        coil_address: register::Address,
        is_closed: bool,
    ) -> (request: Self)
        ensures
            request.bytes() == frame(
                device_address.value(),
                WRITE_SINGLE_COIL,
                coil_address.value(),
                if is_closed { CLOSED } else { OPEN },
            ),
    {
        let value = if is_closed { CLOSED } else { OPEN };
        WriteSingleCoil(build_frame(device_address.get(), WRITE_SINGLE_COIL, coil_address.get(), value))
    }

    pub fn device_address(&self) -> (address: device::Address)
        ensures
            address.value() == self.bytes()[0],
    {
        device::Address::new(self.0[0])
    }

    pub fn as_ref(&self) -> (bytes: &[u8])
        ensures
            bytes@ == self.bytes(),
    {
        self.0.as_slice()
    }
}

} // verus!
