//! Showing the fans' confirmed speeds: on Home Assistant, and on the two status LEDs.
//!
//! Updates for the two fans usually arrive shortly after each other, so they are collected until
//! neither has changed for a moment, and only then shown. The LEDs show both fans:
//! off off for off, on off for low, off on for medium, on on for high, and each fan blinking its
//! setting on its own LED when the two differ.

use vstd::prelude::*;

use crate::set_point::SetPoint;
use crate::user_setting::{LOW, MEDIUM};
use super::command::{state_of, Fan, SetStateCommandValue};

verus! {

/// How long both fans have to be quiet before an update is shown.
pub const DEBOUNCE_MILLISECONDS: u64 = 250;

/// The level of an LED.
#[derive(Debug, Clone, Copy, PartialEq, Eq, Structural)]
pub enum Level {
    Low,
    High,
}

/// How often an LED blinks to show one fan's setting.
#[derive(Debug, Clone, Copy, PartialEq, Eq, Structural)]
pub enum Blink {
    Off,
    Once,
    Twice,
    Thrice,
}

/// Off when standing still, then once, twice or thrice for the low, medium and high range.
pub open spec fn blink_of(set_point: SetPoint) -> Blink {
    if set_point@ == 0 {
        Blink::Off
    } else if set_point@ <= LOW {
        Blink::Once
    } else if set_point@ <= MEDIUM {
        Blink::Twice
    } else {
        Blink::Thrice
    }
}

impl Blink {
    /// The blinks for a set point: see [`blink_of`].
    pub fn from(set_point: SetPoint) -> (blink: Self)
        ensures
            blink == blink_of(set_point),
    {
        let value = set_point.get();
        if value == 0 {
            Blink::Off
        } else if value <= LOW {
            Blink::Once
        } else if value <= MEDIUM {
            Blink::Twice
        } else {
            Blink::Thrice
        }
    }
}

/// What the two LEDs show.
#[allow(inconsistent_fields)]
#[derive(Debug, Clone, Copy, PartialEq, Eq, Structural)]
pub enum LedState {
    /// Both fans run at the same speed: a steady picture of its range
    Synchronized { led_1: Level, led_2: Level },
    /// The fans differ: each LED blinks its fan's range
    Unsynchronized { led_1: Blink, led_2: Blink },
}

/// What the LEDs show for the fans' speeds, where at least one is known. A fan whose speed is not
/// known is shown as off.
pub open spec fn led_state_of(fan_1: Option<SetPoint>, fan_2: Option<SetPoint>) -> LedState {
    match (fan_1, fan_2) {
        (Some(state_1), Some(state_2)) => if state_1@ == state_2@ {
            if state_1@ == 0 {
                LedState::Synchronized { led_1: Level::Low, led_2: Level::Low }
            } else if state_1@ <= LOW {
                LedState::Synchronized { led_1: Level::High, led_2: Level::Low }
            } else if state_1@ <= MEDIUM {
                LedState::Synchronized { led_1: Level::Low, led_2: Level::High }
            } else {
                LedState::Synchronized { led_1: Level::High, led_2: Level::High }
            }
        } else {
            LedState::Unsynchronized { led_1: blink_of(state_1), led_2: blink_of(state_2) }
        },
        (Some(state_1), None) => LedState::Unsynchronized {
            led_1: blink_of(state_1),
            led_2: Blink::Off,
        },
        (None, Some(state_2)) => LedState::Unsynchronized {
            led_1: Blink::Off,
            led_2: blink_of(state_2),
        },
        (None, None) => LedState::Unsynchronized { led_1: Blink::Off, led_2: Blink::Off },
    }
}

/// What the LEDs show: see [`led_state_of`].
pub fn led_state(fan_1: Option<SetPoint>, fan_2: Option<SetPoint>) -> (state: LedState)
    requires
        fan_1 is Some || fan_2 is Some,
    ensures
        state == led_state_of(fan_1, fan_2),
{
    match (fan_1, fan_2) {
        (Some(state_1), Some(state_2)) => if state_1.get() == state_2.get() {
            let value = state_1.get();
            if value == 0 {
                LedState::Synchronized { led_1: Level::Low, led_2: Level::Low }
            } else if value <= LOW {
                LedState::Synchronized { led_1: Level::High, led_2: Level::Low }
            } else if value <= MEDIUM {
                LedState::Synchronized { led_1: Level::Low, led_2: Level::High }
            } else {
                LedState::Synchronized { led_1: Level::High, led_2: Level::High }
            }
        } else {
            LedState::Unsynchronized { led_1: Blink::from(state_1), led_2: Blink::from(state_2) }
        },
        (Some(state_1), None) => LedState::Unsynchronized {
            led_1: Blink::from(state_1),
            led_2: Blink::Off,
        },
        (None, Some(state_2)) => LedState::Unsynchronized {
            led_1: Blink::Off,
            led_2: Blink::from(state_2),
        },
        (None, None) => LedState::Unsynchronized { led_1: Blink::Off, led_2: Blink::Off },
    }
}

/// What the display sends Home Assistant for one fan.
#[derive(Debug, Clone, Copy, PartialEq, Eq, Structural)]
pub enum DisplayMessage {
    /// The fan turned on or off
    State(Fan, SetStateCommandValue),
    /// The fan's speed
    Speed(Fan, SetPoint),
}

/// Whether a fan turned on or off: on the first update after boot the state it is in, which Home
/// Assistant does not know yet; afterwards only a change between standing still and running.
pub open spec fn state_change(current: Option<SetPoint>, update: SetPoint) -> Option<
    SetStateCommandValue,
> {
    match current {
        None => Some(state_of(update)),
        Some(current) => if current@ == 0 && update@ != 0 {
            Some(SetStateCommandValue::On)
        } else if current@ != 0 && update@ == 0 {
            Some(SetStateCommandValue::Off)
        } else {
            None
        },
    }
}

/// What is sent for one fan's update: its on or off state first, when that changed, for a
/// smoother transition in the Home Assistant interface, then its speed.
pub open spec fn fan_messages(fan: Fan, current: Option<SetPoint>, update: SetPoint) -> Seq<
    DisplayMessage,
> {
    match state_change(current, update) {
        Some(state) => seq![DisplayMessage::State(fan, state), DisplayMessage::Speed(fan, update)],
        None => seq![DisplayMessage::Speed(fan, update)],
    }
}

/// What showing the collected updates sends, and what it shows on the LEDs once everything went
/// out.
pub struct Flush {
    pub messages: Vec<DisplayMessage>,
    pub led: Option<LedState>,
}

/// The display routine's state: the speeds last shown, the updates collected since, and whether
/// it is waiting for the fans to be quiet.
pub struct Display {
    pub current_1: Option<SetPoint>,
    pub current_2: Option<SetPoint>,
    pub pending_1: Option<SetPoint>,
    pub pending_2: Option<SetPoint>,
    pub is_debounce_active: bool,
}

impl Display {
    /// Whenever the display waits for the fans to be quiet, it has an update to show.
    pub open spec fn well_formed(&self) -> bool {
        self.is_debounce_active ==> (self.pending_1 is Some || self.pending_2 is Some)
    }

    /// Nothing shown yet, nothing collected.
    pub fn new() -> (display: Self)
        ensures
            display.current_1 is None,
            display.current_2 is None,
            display.pending_1 is None,
            display.pending_2 is None,
            !display.is_debounce_active,
            display.well_formed(),
    {
        Display {
            current_1: None,
            current_2: None,
            pending_1: None,
            pending_2: None,
            is_debounce_active: false,
        }
    }

    /// A fan confirmed a speed. The same speed as shown counts as no update; any other is
    /// collected, replacing what was collected for that fan, and starts the wait for quiet.
    pub fn on_change(&mut self, fan: Fan, set_point: SetPoint)
        requires
            old(self).well_formed(),
        ensures
            final(self).well_formed(),
            final(self).current_1 == old(self).current_1,
            final(self).current_2 == old(self).current_2,
            ({
                let current = match fan {
                    Fan::One => old(self).current_1,
                    Fan::Two => old(self).current_2,
                };
                if current == Some(set_point) {
                    *final(self) == *old(self)
                } else {
                    &&& final(self).is_debounce_active
                    &&& final(self).pending_1 == (match fan {
                        Fan::One => Some(set_point),
                        Fan::Two => old(self).pending_1,
                    })
                    &&& final(self).pending_2 == (match fan {
                        Fan::One => old(self).pending_2,
                        Fan::Two => Some(set_point),
                    })
                }
            }),
    {
        match fan {
            Fan::One => {
                if let Some(current) = self.current_1 {
                    if current == set_point {
                        return;
                    }
                }
                self.pending_1 = Some(set_point);
            },
            Fan::Two => {
                if let Some(current) = self.current_2 {
                    if current == set_point {
                        return;
                    }
                }
                self.pending_2 = Some(set_point);
            },
        }
        self.is_debounce_active = true;
    }
}

/// What is sent for the first fan's collected update, if there is one.
pub open spec fn first_messages(display: Display) -> Seq<DisplayMessage> {
    match display.pending_1 {
        Some(update) => fan_messages(Fan::One, display.current_1, update),
        None => Seq::empty(),
    }
}

/// What is sent for the second fan's collected update, if there is one.
pub open spec fn second_messages(display: Display) -> Seq<DisplayMessage> {
    match display.pending_2 {
        Some(update) => fan_messages(Fan::Two, display.current_2, update),
        None => Seq::empty(),
    }
}

/// A fan's shown speed once its collected update went out.
pub open spec fn committed(current: Option<SetPoint>, pending: Option<SetPoint>) -> Option<SetPoint> {
    match pending {
        Some(update) => Some(update),
        None => current,
    }
}

/// Whether a fan's state changes on or off, as sent.
fn state_change_of(current: Option<SetPoint>, update: SetPoint) -> (state: Option<SetStateCommandValue>)
    ensures
        state == state_change(current, update),
{
    match current {
        None => SetStateCommandValue::from_first(update),
        Some(current) => SetStateCommandValue::from_change(current, update),
    }
}

/// Queues one fan's messages while there is room; says whether all of them fit.
fn queue_fan(
    messages: &mut Vec<DisplayMessage>,
    room: &mut usize,
    fan: Fan,
    current: Option<SetPoint>,
    update: SetPoint,
) -> (complete: bool)
    ensures
        ({
            let wanted = fan_messages(fan, current, update);
            &&& complete == (wanted.len() <= *old(room))
            &&& complete ==> final(messages)@ == old(messages)@ + wanted && *final(room) == *old(
                room,
            ) - wanted.len()
            &&& !complete ==> final(messages)@ == old(messages)@ + wanted.take(*old(room) as int)
        }),
{
    let ghost wanted = fan_messages(fan, current, update);
    match state_change_of(current, update) {
        Some(state) => {
            if *room == 0 {
                assert(wanted.take(0) =~= Seq::<DisplayMessage>::empty());
                assert(messages@ =~= old(messages)@ + wanted.take(0));
                return false;
            }
            messages.push(DisplayMessage::State(fan, state));
            *room = *room - 1;
            if *room == 0 {
                assert(messages@ =~= old(messages)@ + wanted.take(1));
                return false;
            }
            messages.push(DisplayMessage::Speed(fan, update));
            *room = *room - 1;
            assert(messages@ =~= old(messages)@ + wanted);
            true
        },
        None => {
            if *room == 0 {
                assert(messages@ =~= old(messages)@ + wanted.take(0));
                return false;
            }
            messages.push(DisplayMessage::Speed(fan, update));
            *room = *room - 1;
            assert(messages@ =~= old(messages)@ + wanted);
            true
        },
    }
}

impl Display {
    /// Neither fan changed for [`DEBOUNCE_MILLISECONDS`]: shows what was collected, the first fan
    /// first, with `room` publishes left in the outgoing queue.
    ///
    /// A fan whose messages do not all fit stays collected and is shown the next time, after its
    /// messages that did fit; nothing after it goes out, and the LEDs only change once everything
    /// has.
    pub fn on_quiet(&mut self, room: usize) -> (flush: Flush)
        requires
            old(self).well_formed(),
            old(self).is_debounce_active,
        ensures
            final(self).well_formed(),
            !final(self).is_debounce_active,
            ({
                let first = first_messages(*old(self));
                let second = second_messages(*old(self));
                if first.len() > room {
                    &&& flush.messages@ == first.take(room as int)
                    &&& flush.led is None
                    &&& final(self).current_1 == old(self).current_1
                    &&& final(self).pending_1 == old(self).pending_1
                    &&& final(self).current_2 == old(self).current_2
                    &&& final(self).pending_2 == old(self).pending_2
                } else if first.len() + second.len() > room {
                    &&& flush.messages@ == first + second.take(room - first.len())
                    &&& flush.led is None
                    &&& final(self).current_1 == committed(old(self).current_1, old(self).pending_1)
                    &&& final(self).pending_1 is None
                    &&& final(self).current_2 == old(self).current_2
                    &&& final(self).pending_2 == old(self).pending_2
                } else {
                    &&& flush.messages@ == first + second
                    &&& final(self).current_1 == committed(old(self).current_1, old(self).pending_1)
                    &&& final(self).pending_1 is None
                    &&& final(self).current_2 == committed(old(self).current_2, old(self).pending_2)
                    &&& final(self).pending_2 is None
                    &&& flush.led == Some(led_state_of(final(self).current_1, final(self).current_2))
                }
            }),
    {
        self.is_debounce_active = false;
        let mut messages: Vec<DisplayMessage> = Vec::new();
        let mut room = room;
        if let Some(update) = self.pending_1 {
            if !queue_fan(&mut messages, &mut room, Fan::One, self.current_1, update) {
                return Flush { messages, led: None };
            }
            self.current_1 = Some(update);
            self.pending_1 = None;
        }
        assert(messages@ =~= first_messages(*old(self)));
        let ghost after_first = messages@;
        if let Some(update) = self.pending_2 {
            if !queue_fan(&mut messages, &mut room, Fan::Two, self.current_2, update) {
                return Flush { messages, led: None };
            }
            self.current_2 = Some(update);
            self.pending_2 = None;
        }
        assert(messages@ =~= first_messages(*old(self)) + second_messages(*old(self)));
        let led = led_state(self.current_1, self.current_2);
        Flush { messages, led: Some(led) }
    }
}

} // verus!
