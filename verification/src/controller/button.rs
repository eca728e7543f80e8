//! The one button on the controller, which cycles both fans through their settings.

use vstd::prelude::*;

use crate::set_point::SetPoint;
use crate::user_setting::{high, low, medium, HIGH, LOW, MEDIUM};

verus! {

/// How long the line has to stay low for a falling edge to count as a press: longer than the
/// line bounces and than anything interference couples into the wiring, shorter than the
/// shortest deliberate tap.
pub const DEBOUNCE_HOLD_MILLISECONDS: u64 = 50;

/// Waiting for the button to be pressed. A falling edge alone is not a press: contact bounce and
/// interference on the long button wiring produce edges nobody caused, and both are over long
/// before a finger lets go. So an edge counts only when the line stays low for the hold time.
pub struct Debouncer {
    pub hold_milliseconds: u64,
}

impl Debouncer {
    pub fn new(hold_milliseconds: u64) -> (debouncer: Self)
        ensures
            debouncer.hold_milliseconds == hold_milliseconds,
    {
        Debouncer { hold_milliseconds }
    }

    /// After a falling edge, whether it was a press: only when the line did not go high again
    /// within the hold time. Otherwise the wait for the next edge starts over.
    pub fn is_press(&self, went_high_within_hold: bool) -> (press: bool)
        ensures
            press == !went_high_within_hold,
    {
        !went_high_within_hold
    }
}

/// The setting after `base`: low after off, medium after low, high after medium, and off again
/// after high.
pub open spec fn next_setting(base: u16) -> u16 {
    if base == 0 {
        LOW
    } else if base <= LOW {
        MEDIUM
    } else if base <= MEDIUM {
        HIGH
    } else {
        0
    }
}

/// The set point both fans go to when the button is pressed. The button controls both fans, so
/// it forces them together: the next setting after the slower of the two, where a fan whose state
/// is not known counts as off.
pub fn next_set_point_after_press(fan_1: Option<SetPoint>, fan_2: Option<SetPoint>) -> (next: SetPoint)
    ensures
        ({
            let speed_1: u16 = match fan_1 {
                Some(set_point) => set_point@,
                None => 0,
            };
            let speed_2: u16 = match fan_2 {
                Some(set_point) => set_point@,
                None => 0,
            };
            next@ == next_setting(if speed_1 <= speed_2 { speed_1 } else { speed_2 })
        }),
{
    let speed_1: u16 = match fan_1 {
        Some(set_point) => set_point.get(),
        None => 0,
    };
    let speed_2: u16 = match fan_2 {
        Some(set_point) => set_point.get(),
        None => 0,
    };
    let base = if speed_1 <= speed_2 { speed_1 } else { speed_2 };
    if base == 0 {
        low()
    } else if base <= LOW {
        medium()
    } else if base <= MEDIUM {
        high()
    } else {
        SetPoint::zero()
    }
}

/// Four presses from off go through low, medium and high and back to off.
pub proof fn lemma_presses_cycle()
    ensures
        next_setting(0) == LOW,
        next_setting(LOW) == MEDIUM,
        next_setting(MEDIUM) == HIGH,
        next_setting(HIGH) == 0,
{
}

/// Whatever the fans run at, at most four presses turn them off.
pub proof fn lemma_presses_reach_off(base: u16)
    ensures
        next_setting(base) == 0 || next_setting(next_setting(base)) == 0 || next_setting(
            next_setting(next_setting(base)),
        ) == 0 || next_setting(next_setting(next_setting(next_setting(base)))) == 0,
{
}

} // verus!
