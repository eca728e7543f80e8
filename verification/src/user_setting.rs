//! The settings the button cycles through, tuned to the house. The fans are not run at full speed
//! to reduce wear on them, so the top setting is half the range and Home Assistant is told that
//! this is the top of its range.

use vstd::prelude::*;
use crate::set_point::{self, SetPoint};

verus! {

/// A third of [`HIGH`], the bottom third of the range Home Assistant knows about
pub const LOW: u16 = set_point::MAX / 6;
/// Two thirds of [`HIGH`]
pub const MEDIUM: u16 = set_point::MAX / 3;
/// Half the fans' range, the top of what Home Assistant offers
pub const HIGH: u16 = set_point::MAX / 2;

/// The low setting as a set point.
pub fn low() -> (setting: SetPoint)
    ensures
        setting@ == LOW,
{
    SetPoint::new(LOW).unwrap()
}

/// The medium setting as a set point.
pub fn medium() -> (setting: SetPoint)
    ensures
        setting@ == MEDIUM,
{
    SetPoint::new(MEDIUM).unwrap()
}

/// The high setting as a set point.
pub fn high() -> (setting: SetPoint)
    ensures
        setting@ == HIGH,
{
    SetPoint::new(HIGH).unwrap()
}

} // verus!
