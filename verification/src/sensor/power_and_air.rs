//! Offsets into the block of input registers starting at `POWER_AND_AIR_START`.

use vstd::prelude::*;

verus! {

/// `D027`, section 3.20.2
pub const CURRENT_POWER: usize = 0x0;
/// `D02E`, section 3.17.3. Sensor 1 rather than sensor 2, because sensor 1 is the one the fan
/// itself uses for its mass flow calculation
pub const AIR_TEMPERATURE: usize = 0x7;
/// `D02F`, section 3.17.3
pub const AIR_HUMIDITY: usize = 0x8;
/// `D033`, section 3.17.5
pub const VOLUME_FLOW: usize = 0xC;

} // verus!
