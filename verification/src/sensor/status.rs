//! Offsets into the block of input registers starting at `STATUS_START`.

use vstd::prelude::*;

verus! {

/// `D010`, section 3.8
pub const ACTUAL_SPEED: usize = 0x0;
/// `D011`, section 3.9
pub const MOTOR_STATUS: usize = 0x1;
/// `D012`, section 3.10
pub const WARNING: usize = 0x2;
/// `D016`, section 3.13
pub const MOTOR_TEMPERATURE: usize = 0x6;
/// `D017`, section 3.14
pub const ELECTRONICS_TEMPERATURE: usize = 0x7;

} // verus!
