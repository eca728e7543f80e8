//! The first client for the fans: one state for both, a set point written to each of them in
//! turn, and the temperature of the air sensor wired to a fan. The frames are built here; sending
//! them over the UART is the firmware's part.

use vstd::prelude::*;

use crate::modbus::function::{build_frame, frame, READ_INPUT_REGISTERS, WRITE_SINGLE_REGISTER};
use crate::set_point::SetPointOutOfBoundsError;
use crate::controller::command::Fan;

verus! {

/// The line speed of the fans' bus.
pub const BAUD_RATE: u32 = 19_200;

/// The set point that stands for the fan's configured maximum speed.
pub const MAX_SET_POINT: u16 = 64_000;

/// The first fan's device address. 0x01 is avoided, as it may be taken as a default address
pub const FAN_1: u8 = 0x02;
/// The second fan's device address
pub const FAN_2: u8 = 0x03;

/// The holding register the fans take their set point in
pub const REFERENCE_SET_POINT: u16 = 0xD001;

/// The input register of the first air temperature sensor
pub const TEMPERATURE_SENSOR_1: u16 = 0xD02E;

/// A speed for both fans, from 0 to [`MAX_SET_POINT`].
#[derive(Debug, Clone, Copy, PartialEq, Eq, Structural)]
pub struct Setting(pub u16);

impl Setting {
    /// The setting, unless it is above [`MAX_SET_POINT`].
    pub fn new(set_point: u16) -> (result: Result<Self, SetPointOutOfBoundsError>)
        ensures
            result is Ok <==> set_point <= MAX_SET_POINT,
            result matches Ok(setting) ==> setting.0 == set_point,
    {
        if set_point > MAX_SET_POINT {
            return Err(SetPointOutOfBoundsError);
        }
        Ok(Self(set_point))
    }

    /// The raw set point.
    pub fn get(&self) -> (value: u16)
        ensures
            value == self.0,
    {
        self.0
    }
}

/// The two frames that write a setting: to the first fan, then to the second, each with its own
/// checksum.
pub fn set_set_point_frames(setting: &Setting) -> (frames: ([u8; 8], [u8; 8]))
    ensures
        frames.0@ == frame(FAN_1, WRITE_SINGLE_REGISTER, REFERENCE_SET_POINT, setting.0),
        frames.1@ == frame(FAN_2, WRITE_SINGLE_REGISTER, REFERENCE_SET_POINT, setting.0),
{
    let first = build_frame(FAN_1, WRITE_SINGLE_REGISTER, REFERENCE_SET_POINT, setting.0);
    let second = build_frame(FAN_2, WRITE_SINGLE_REGISTER, REFERENCE_SET_POINT, setting.0);
    (first, second)
}

/// The frame that reads one register of a fan's first air temperature sensor.
pub fn temperature_request(fan: Fan) -> (request: [u8; 8])
    ensures
        request@ == frame(
            match fan {
                Fan::One => FAN_1,
                Fan::Two => FAN_2,
            },
            READ_INPUT_REGISTERS,
            TEMPERATURE_SENSOR_1,
            1,
        ),
{
    let address = match fan {
        Fan::One => FAN_1,
        Fan::Two => FAN_2,
    };
    build_frame(address, READ_INPUT_REGISTERS, TEMPERATURE_SENSOR_1, 1)
}

/// The temperature in an answer to [`temperature_request`], in tenths of a degree: the register
/// behind the address, function code and byte count, most significant byte first. The answer is
/// not checked.
pub fn temperature_of(response: &[u8; 8]) -> (temperature: u16)
    ensures
        temperature == response@[3] as int * 256 + response@[4] as int,
{
    response[3] as u16 * 256 + response[4] as u16
}

} // verus!
