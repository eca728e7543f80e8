//! Polling a fan for what it reports about itself, and following it to a newly confirmed speed.
//!
//! Nothing acts on these values, so a failed poll is dropped rather than retried: the next poll
//! carries fresher values. After the fan confirms a new speed, it is read every
//! [`SETTLE_POLL_MILLISECONDS`] until the flow stops moving, which is the settling watcher's
//! decision, and then at the ordinary interval again.

use vstd::prelude::*;

use crate::sensor::{
    decode, decoded, Progress, Reading, Settling, SettlingView, POWER_AND_AIR_LENGTH, STATUS_LENGTH,
};

verus! {

/// How often each fan is polled ordinarily.
pub const POLL_INTERVAL_MILLISECONDS: u64 = 30_000;

/// How often a fan on its way to a newly confirmed speed is polled.
pub const SETTLE_POLL_MILLISECONDS: u32 = 2_000;

/// How long the bus is left alone before the first poll, so the set points both fan control
/// routines read on boot come first.
pub const STARTUP_DELAY_MILLISECONDS: u64 = 10_000;

/// When the next poll comes.
#[derive(Debug, Clone, Copy, PartialEq, Eq, Structural)]
pub enum NextPoll {
    /// After [`SETTLE_POLL_MILLISECONDS`], because the fan is still on its way
    Quickly,
    /// After [`POLL_INTERVAL_MILLISECONDS`], or as soon as the fan confirms a new speed
    AtInterval,
}

/// What one poll gave: the reading to publish, if the poll succeeded, and when to poll next.
pub struct PollOutcome {
    pub reading: Option<Reading>,
    pub next: NextPoll,
}

/// A sensor routine's state: the fan's configured maximum speed once it is known, and the
/// settling watcher while a speed change is being followed.
pub struct SensorPoll {
    pub maximum_speed: Option<u16>,
    pub settling: Option<Settling>,
}

impl SensorPoll {
    /// Nothing known, nothing followed.
    pub fn new() -> (poll: Self)
        ensures
            poll.maximum_speed is None,
            poll.settling is None,
    {
        SensorPoll { maximum_speed: None, settling: None }
    }

    /// Whether the maximum speed still has to be read before this poll. It only changes when the
    /// fan is reconfigured, so it is read until it is known and then kept.
    pub fn needs_maximum_speed(&self) -> (needed: bool)
        ensures
            needed == (self.maximum_speed is None),
    {
        self.maximum_speed.is_none()
    }

    /// The maximum speed was read, or the read failed (`None`), which leaves the speed unknown
    /// in the readings until a later poll reads it.
    pub fn on_maximum_speed(&mut self, maximum_speed: Option<u16>)
        ensures
            final(self).maximum_speed == (match maximum_speed {
                Some(value) => Some(value),
                None => old(self).maximum_speed,
            }),
            final(self).settling == old(self).settling,
    {
        if let Some(value) = maximum_speed {
            self.maximum_speed = Some(value);
        }
    }

    /// A poll read both runs of registers, or failed (`None`). A successful poll is decoded with
    /// the maximum speed known so far. While a speed change is followed, the flow, or the
    /// failure, goes to the settling watcher, and the fan is polled quickly until it says the fan
    /// settled or gave up; then the watcher is dropped.
    pub fn on_poll(&mut self, blocks: Option<([u16; STATUS_LENGTH], [u16; POWER_AND_AIR_LENGTH])>) -> (outcome: PollOutcome)
        ensures
            final(self).maximum_speed == old(self).maximum_speed,
            outcome.reading == (match blocks {
                Some((status, power_and_air)) => Some(
                    decoded(status@, power_and_air@, old(self).maximum_speed),
                ),
                None => None,
            }),
            ({
                let flow = match outcome.reading {
                    Some(reading) => Some(reading.volume_flow),
                    None => None,
                };
                match old(self).settling {
                    None => outcome.next == NextPoll::AtInterval && final(self).settling is None,
                    Some(settling) => {
                        let after = settling@.next(flow);
                        if after.progress() == Progress::Moving {
                            &&& outcome.next == NextPoll::Quickly
                            &&& final(self).settling matches Some(kept) && kept@ == after
                        } else {
                            outcome.next == NextPoll::AtInterval && final(self).settling is None
                        }
                    },
                }
            }),
    {
        let reading = match blocks {
            Some((status, power_and_air)) => Some(decode(&status, &power_and_air, self.maximum_speed)),
            None => None,
        };
        let volume_flow = match reading {
            Some(reading) => Some(reading.volume_flow),
            None => None,
        };
        let mut settling = self.settling;
        let next = match settling {
            None => NextPoll::AtInterval,
            Some(ref mut state) => match state.observe(volume_flow) {
                Progress::Moving => NextPoll::Quickly,
                Progress::Settled => NextPoll::AtInterval,
                Progress::GaveUp => NextPoll::AtInterval,
            },
        };
        self.settling = match next {
            NextPoll::Quickly => settling,
            NextPoll::AtInterval => None,
        };
        PollOutcome { reading, next }
    }

    /// The fan confirmed a new speed while waiting out the interval: follow it to that speed.
    pub fn on_confirmed_change(&mut self)
        ensures
            final(self).maximum_speed == old(self).maximum_speed,
            final(self).settling matches Some(settling) && settling@ == SettlingView::initial(
                SETTLE_POLL_MILLISECONDS,
            ),
    {
        self.settling = Some(Settling::at_interval(SETTLE_POLL_MILLISECONDS));
    }
}

} // verus!
