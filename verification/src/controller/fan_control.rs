//! Applying the requested speeds to a fan over Modbus: reading back what it runs at on boot, and
//! retrying a write that failed.

use vstd::prelude::*;

use crate::set_point::{SetPoint, MAX};
use super::command::RequestedSetPoint;

verus! {

/// How often a Modbus transaction is attempted before the fan counts as unreachable.
pub const MAX_ATTEMPTS: u8 = 3;

/// How long to wait before the next attempt: the attempt number squared, times 100 ms.
pub open spec fn back_off_of(attempt: u8) -> u64 {
    (attempt * attempt * 100) as u64
}

/// The wait before the next attempt, in milliseconds: see [`back_off_of`].
pub fn back_off_milliseconds(attempt: u8) -> (milliseconds: u64)
    ensures
        milliseconds == back_off_of(attempt),
{
    let attempt = attempt as u64;
    assert(attempt * attempt <= 255 * 255) by (nonlinear_arith)
        requires
            attempt <= 255,
    ;
    attempt * attempt * 100
}

/// What to do after one attempt at reading a fan's set point.
#[derive(Debug, Clone, Copy, PartialEq, Eq, Structural)]
pub enum ReadStep {
    /// Stop reading: the fan runs at this set point, or it stays unknown
    Done(Option<SetPoint>),
    /// Wait this long and make the next attempt
    Retry { wait_milliseconds: u64, next_attempt: u8 },
}

/// After attempt `attempt` at reading a fan's set point, which answered `value` or failed
/// (`None`): an answer ends the reading, as the set point or as unknown when it is above the
/// range; a failure retries with a back-off, unless a set point was requested meanwhile, which is
/// worth more than the one being read, or this was the last attempt.
pub open spec fn read_step_of(attempt: u8, value: Option<u16>, requested: bool) -> ReadStep {
    match value {
        Some(value) => if value <= MAX {
            ReadStep::Done(Some(SetPoint::with_value(value)))
        } else {
            ReadStep::Done(None)
        },
        None => if requested || attempt >= MAX_ATTEMPTS {
            ReadStep::Done(None)
        } else {
            ReadStep::Retry { wait_milliseconds: back_off_of(attempt), next_attempt: (attempt + 1) as u8 }
        },
    }
}

/// The step after an attempt at reading a fan's set point: see [`read_step_of`].
pub fn read_set_point_step(attempt: u8, value: Option<u16>, requested: bool) -> (step: ReadStep)
    requires
        1 <= attempt <= MAX_ATTEMPTS,
    ensures
        step == read_step_of(attempt, value, requested),
{
    match value {
        Some(value) => match SetPoint::new(value) {
            Ok(set_point) => {
                proof {
                    SetPoint::lemma_with_value(set_point, value);
                }
                ReadStep::Done(Some(set_point))
            },
            Err(_) => ReadStep::Done(None),
        },
        None => if requested || attempt >= MAX_ATTEMPTS {
            ReadStep::Done(None)
        } else {
            ReadStep::Retry {
                wait_milliseconds: back_off_milliseconds(attempt),
                next_attempt: attempt + 1,
            }
        },
    }
}

/// What to do after one attempt at writing a fan's set point.
#[derive(Debug, Clone, Copy, PartialEq, Eq, Structural)]
pub enum WriteStep {
    /// The fan took the set point
    Written,
    /// The fan counts as unreachable
    Failed,
    /// A newer request arrived: drop this one and apply that
    Superseded,
    /// Wait this long and write again
    Retry { wait_milliseconds: u64, next_attempt: u8 },
}

/// After attempt `attempt` at writing a set point, which `written` or not. A write that is taken
/// is done. Once [`MAX_ATTEMPTS`] attempts failed, the fan counts as unreachable. Before that, a
/// failed attempt gives way to a newer request when one arrived, and is otherwise retried with a
/// back-off.
pub open spec fn write_step_of(attempt: u8, written: bool, requested: bool) -> WriteStep {
    if written {
        WriteStep::Written
    } else if attempt >= MAX_ATTEMPTS {
        WriteStep::Failed
    } else if requested {
        WriteStep::Superseded
    } else {
        WriteStep::Retry { wait_milliseconds: back_off_of((attempt + 1) as u8), next_attempt: (attempt + 1) as u8 }
    }
}

/// The step after an attempt at writing a set point: see [`write_step_of`].
pub fn write_step(attempt: u8, written: bool, requested: bool) -> (step: WriteStep)
    requires
        1 <= attempt <= MAX_ATTEMPTS,
    ensures
        step == write_step_of(attempt, written, requested),
{
    if written {
        WriteStep::Written
    } else if attempt >= MAX_ATTEMPTS {
        WriteStep::Failed
    } else if requested {
        WriteStep::Superseded
    } else {
        WriteStep::Retry {
            wait_milliseconds: back_off_milliseconds(attempt + 1),
            next_attempt: attempt + 1,
        }
    }
}

/// A fan control routine's state: the set point the fan was last confirmed at, or nothing while
/// that is unknown.
#[derive(Debug, Clone, Copy, PartialEq, Eq, Structural)]
pub struct FanControl {
    pub current: Option<SetPoint>,
}

impl FanControl {
    /// The set point read back on boot, or unknown. The display is told when it is known.
    pub fn new(read_back: Option<SetPoint>) -> (control: Self)
        ensures
            control.current == read_back,
    {
        FanControl { current: read_back }
    }

    /// Whether a request has to be written: not when the fan already runs at that set point.
    pub fn should_apply(&self, request: RequestedSetPoint) -> (apply: bool)
        ensures
            apply == (self.current != Some(request.requested())),
    {
        match self.current {
            Some(current) => current != request.set_point(),
            None => true,
        }
    }

    /// The write failed for good. A user's request pushes the other fan back to the set point
    /// this one was last confirmed at, to keep them from drifting apart; a correction from the
    /// other fan pushes nothing back, or the two would bounce it between them forever.
    pub fn on_failed(&self, request: RequestedSetPoint) -> (correction: Option<RequestedSetPoint>)
        ensures
            correction == (if request is FromUser {
                match self.current {
                    Some(current) => Some(RequestedSetPoint::FromOtherFan(current)),
                    None => None,
                }
            } else {
                None
            }),
    {
        if !request.should_correct_other_fan() {
            return None;
        }
        match self.current {
            Some(current) => Some(RequestedSetPoint::FromOtherFan(current)),
            None => None,
        }
    }

    /// The fan took the set point. Says whether the displays have to be told, which is when it
    /// differs from the one they show.
    pub fn on_written(&mut self, set_point: SetPoint) -> (changed: bool)
        ensures
            changed == (old(self).current != Some(set_point)),
            final(self).current == Some(set_point),
    {
        let changed = match self.current {
            Some(current) => current != set_point,
            None => true,
        };
        self.current = Some(set_point);
        changed
    }
}

/// Writing a set point always ends: a retry counts the attempt up, and the last of the
/// [`MAX_ATTEMPTS`] attempts is never retried, so at most that many writes are made.
pub proof fn lemma_writes_end(attempt: u8, written: bool, requested: bool)
    requires
        1 <= attempt <= MAX_ATTEMPTS,
    ensures
        write_step_of(attempt, written, requested) matches WriteStep::Retry { next_attempt, .. }
            ==> next_attempt == attempt + 1 && next_attempt <= MAX_ATTEMPTS,
        attempt == MAX_ATTEMPTS ==> !(write_step_of(attempt, written, requested) is Retry),
        written ==> write_step_of(attempt, written, requested) == WriteStep::Written,
{
}

/// Reading a set point always ends: a retry counts the attempt up, and the last attempt is never
/// retried.
pub proof fn lemma_reads_end(attempt: u8, value: Option<u16>, requested: bool)
    requires
        1 <= attempt <= MAX_ATTEMPTS,
    ensures
        read_step_of(attempt, value, requested) matches ReadStep::Retry { next_attempt, .. }
            ==> next_attempt == attempt + 1 && next_attempt <= MAX_ATTEMPTS,
        attempt == MAX_ATTEMPTS ==> !(read_step_of(attempt, value, requested) is Retry),
{
}

} // verus!
