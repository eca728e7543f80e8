//! Driving the relay module's contact on its own bus, and reporting where it actually ended up.

use vstd::prelude::*;

use super::fan_control::{back_off_milliseconds, back_off_of, MAX_ATTEMPTS};

verus! {

/// Which bit of the byte a coil read answers with is the relay.
pub const RELAY_BIT: u8 = 0b0000_0001;

/// What to do after one attempt at reading the contact.
#[derive(Debug, Clone, Copy, PartialEq, Eq, Structural)]
pub enum RelayReadStep {
    /// Stop: the contact is closed (`true`) or open, or unknown
    Done(Option<bool>),
    /// Wait this long and make the next attempt
    Retry { wait_milliseconds: u64, next_attempt: u8 },
}

/// After attempt `attempt` at reading the contact, which answered with `coils` or failed: the
/// relay is bit 0 of the answer; a failure is retried, counting the attempt up first and backing
/// off by the new count, until the last attempt failed, which leaves the contact unknown.
pub open spec fn relay_read_step_of(attempt: u8, coils: Option<u8>) -> RelayReadStep {
    match coils {
        Some(coils) => RelayReadStep::Done(Some(coils & RELAY_BIT != 0)),
        None => if attempt >= MAX_ATTEMPTS {
            RelayReadStep::Done(None)
        } else {
            RelayReadStep::Retry {
                wait_milliseconds: back_off_of((attempt + 1) as u8),
                next_attempt: (attempt + 1) as u8,
            }
        },
    }
}

/// The step after an attempt at reading the contact: see [`relay_read_step_of`].
pub fn relay_read_step(attempt: u8, coils: Option<u8>) -> (step: RelayReadStep)
    requires
        1 <= attempt <= MAX_ATTEMPTS,
    ensures
        step == relay_read_step_of(attempt, coils),
{
    match coils {
        Some(coils) => RelayReadStep::Done(Some(coils & RELAY_BIT != 0)),
        None => if attempt >= MAX_ATTEMPTS {
            RelayReadStep::Done(None)
        } else {
            RelayReadStep::Retry {
                wait_milliseconds: back_off_milliseconds(attempt + 1),
                next_attempt: attempt + 1,
            }
        },
    }
}

/// What to do after one attempt at writing the contact.
#[derive(Debug, Clone, Copy, PartialEq, Eq, Structural)]
pub enum RelayWriteStep {
    /// The module confirmed the write: report the new state
    Confirmed,
    /// The module did not answer the last attempt: the state is unknown now
    GaveUp,
    /// A newer request arrived: drop this one and apply that
    Superseded,
    /// Wait this long and write again
    Retry { wait_milliseconds: u64, next_attempt: u8 },
}

/// The relay routine's state: where the contact is known to be, if it is known.
#[derive(Debug, Clone, Copy, PartialEq, Eq, Structural)]
pub struct Relay {
    pub current: Option<bool>,
}

impl Relay {
    /// The state read on boot, since the module holds its contact while the controller resets.
    pub fn new(read_back: Option<bool>) -> (relay: Self)
        ensures
            relay.current == read_back,
    {
        Relay { current: read_back }
    }

    /// Whether a request has to be written: not when the contact is already there.
    pub fn should_write(&self, is_closed: bool) -> (write: bool)
        ensures
            write == (self.current != Some(is_closed)),
    {
        match self.current {
            Some(current) => current != is_closed,
            None => true,
        }
    }

    /// After attempt `attempt` at writing `is_closed`, which `written` or not. A confirmed write
    /// is the new state. When the last attempt fails, the write may or may not have been carried
    /// out, so the state becomes unknown and the next request writes rather than skipping.
    /// Otherwise a failure counts the attempt up and retries, unless a newer request arrived.
    pub fn after_write(&mut self, is_closed: bool, attempt: u8, written: bool, requested: bool) -> (step: RelayWriteStep)
        requires
            1 <= attempt <= MAX_ATTEMPTS,
        ensures
            written ==> step == RelayWriteStep::Confirmed && final(self).current == Some(is_closed),
            !written && attempt >= MAX_ATTEMPTS ==> step == RelayWriteStep::GaveUp
                && final(self).current is None,
            !written && attempt < MAX_ATTEMPTS && requested ==> step == RelayWriteStep::Superseded
                && *final(self) == *old(self),
            !written && attempt < MAX_ATTEMPTS && !requested ==> step == (RelayWriteStep::Retry {
                wait_milliseconds: back_off_of((attempt + 1) as u8),
                next_attempt: (attempt + 1) as u8,
            }) && *final(self) == *old(self),
    {
        if written {
            self.current = Some(is_closed);
            RelayWriteStep::Confirmed
        } else if attempt >= MAX_ATTEMPTS {
            self.current = None;
            RelayWriteStep::GaveUp
        } else if requested {
            RelayWriteStep::Superseded
        } else {
            RelayWriteStep::Retry {
                wait_milliseconds: back_off_milliseconds(attempt + 1),
                next_attempt: attempt + 1,
            }
        }
    }
}

} // verus!
