//! Deciding what the requests that arrive over MQTT mean for the fans and the relay.
//!
//! A speed for either fan is applied to both, so they never drift apart and put the house under
//! or over pressure. Turning a fan off sets it to zero; turning it back on restores the last
//! speed it was confirmed running at, which comes from the confirmed state rather than from the
//! commands, so it also picks up speeds set with the button and the speed read back on boot.

use vstd::prelude::*;

use crate::set_point::SetPoint;
use super::command::{
    Fan, FanCommand, FromPublishError, IncomingPublish, RequestedSetPoint, SetStateCommandValue,
};

verus! {

/// What the brain asks of the other routines.
#[derive(Debug, Clone, Copy, PartialEq, Eq, Structural)]
pub enum BrainAction {
    /// Ask a fan's control routine for a speed
    SignalFan(Fan, RequestedSetPoint),
    /// Ask the relay routine to close (`true`) or open the contact
    SignalRelay(bool),
}

/// The last speed each fan was confirmed running at; zero until one has been.
#[derive(Debug, Clone, Copy, PartialEq, Eq, Structural)]
pub struct Brain {
    pub last_1: SetPoint,
    pub last_2: SetPoint,
}

impl Brain {
    /// The brain after a fan confirmed a speed. Zero is not remembered: it is the state that
    /// "on" restores from.
    pub open spec fn confirmed(self, fan: Fan, set_point: SetPoint) -> Brain {
        if set_point@ == 0 {
            self
        } else {
            match fan {
                Fan::One => Brain { last_1: set_point, ..self },
                Fan::Two => Brain { last_2: set_point, ..self },
            }
        }
    }

    /// What a request that arrived over MQTT asks of the other routines. A request that could not
    /// be read asks nothing.
    pub open spec fn actions(self, message: Result<IncomingPublish, FromPublishError>) -> Seq<
        BrainAction,
    > {
        match message {
            Err(_) => Seq::empty(),
            Ok(IncomingPublish::FanCommand { target, command: FanCommand::SetSpeed { set_point } }) => {
                let other = match target {
                    Fan::One => Fan::Two,
                    Fan::Two => Fan::One,
                };
                seq![
                    BrainAction::SignalFan(target, RequestedSetPoint::FromUser(set_point)),
                    BrainAction::SignalFan(other, RequestedSetPoint::FromUser(set_point)),
                ]
            },
            Ok(IncomingPublish::RelayCommand(state)) => seq![
                BrainAction::SignalRelay(state == SetStateCommandValue::On),
            ],
            Ok(IncomingPublish::FanCommand { target, command: FanCommand::SetState(state) }) => {
                let restored = match target {
                    Fan::One => self.last_1,
                    Fan::Two => self.last_2,
                };
                let set_point = match state {
                    SetStateCommandValue::On => restored,
                    SetStateCommandValue::Off => SetPoint::standing_still(),
                };
                seq![BrainAction::SignalFan(target, RequestedSetPoint::FromUser(set_point))]
            },
        }
    }

    /// Nothing confirmed yet.
    pub fn new() -> (brain: Self)
        ensures
            brain.last_1 == SetPoint::standing_still(),
            brain.last_2 == SetPoint::standing_still(),
    {
        Brain { last_1: SetPoint::zero(), last_2: SetPoint::zero() }
    }

    /// A fan confirmed a speed: see [`Brain::confirmed`].
    pub fn on_confirmed(&mut self, fan: Fan, set_point: SetPoint)
        ensures
            *final(self) == old(self).confirmed(fan, set_point),
    {
        if set_point.get() != 0 {
            match fan {
                Fan::One => self.last_1 = set_point,
                Fan::Two => self.last_2 = set_point,
            }
        }
    }

    /// A request arrived over MQTT: see [`Brain::actions`].
    pub fn on_publish(&self, message: Result<IncomingPublish, FromPublishError>) -> (actions: Vec<
        BrainAction,
    >)
        ensures
            actions@ == self.actions(message),
    {
        let mut actions: Vec<BrainAction> = Vec::new();
        match message {
            Err(_) => {},
            Ok(IncomingPublish::FanCommand { target, command: FanCommand::SetSpeed { set_point } }) => {
                let other = match target {
                    Fan::One => Fan::Two,
                    Fan::Two => Fan::One,
                };
                actions.push(BrainAction::SignalFan(target, RequestedSetPoint::FromUser(set_point)));
                actions.push(BrainAction::SignalFan(other, RequestedSetPoint::FromUser(set_point)));
            },
            Ok(IncomingPublish::RelayCommand(state)) => {
                let is_closed = match state {
                    SetStateCommandValue::On => true,
                    SetStateCommandValue::Off => false,
                };
                actions.push(BrainAction::SignalRelay(is_closed));
            },
            Ok(IncomingPublish::FanCommand { target, command: FanCommand::SetState(state) }) => {
                let restored = match target {
                    Fan::One => self.last_1,
                    Fan::Two => self.last_2,
                };
                let set_point = match state {
                    SetStateCommandValue::On => restored,
                    SetStateCommandValue::Off => SetPoint::zero(),
                };
                actions.push(BrainAction::SignalFan(target, RequestedSetPoint::FromUser(set_point)));
            },
        }
        assert(actions@ =~= self.actions(message));
        actions
    }
}

/// Turning a fan off and on again restores the speed it last ran at: once a fan confirmed a
/// running speed, and then stood still, "on" asks for that speed again.
pub proof fn lemma_off_then_on_restores(brain: Brain, fan: Fan, running: SetPoint)
    requires
        running@ != 0,
    ensures
        ({
            let after = brain.confirmed(fan, running).confirmed(fan, SetPoint::standing_still());
            after.actions(
                Ok(
                    IncomingPublish::FanCommand {
                        target: fan,
                        command: FanCommand::SetState(SetStateCommandValue::On),
                    },
                ),
            ) == seq![BrainAction::SignalFan(fan, RequestedSetPoint::FromUser(running))]
        }),
{
    SetPoint::lemma_standing_still(running);
}

/// The brain after each of `confirmations`, a fan and the speed it confirmed, in turn.
pub open spec fn confirmed_all(brain: Brain, confirmations: Seq<(Fan, SetPoint)>) -> Brain
    decreases confirmations.len(),
{
    if confirmations.len() == 0 {
        brain
    } else {
        let (fan, set_point) = confirmations.last();
        confirmed_all(brain, confirmations.drop_last()).confirmed(fan, set_point)
    }
}

/// The last running speed `fan` confirmed among `confirmations`, or standing still when it
/// confirmed none.
pub open spec fn last_running(fan: Fan, confirmations: Seq<(Fan, SetPoint)>) -> SetPoint
    decreases confirmations.len(),
{
    if confirmations.len() == 0 {
        SetPoint::standing_still()
    } else {
        let (confirming, set_point) = confirmations.last();
        if confirming == fan && set_point@ != 0 {
            set_point
        } else {
            last_running(fan, confirmations.drop_last())
        }
    }
}

/// What a fresh brain remembers for `fan` after any run of confirmations is the last running
/// speed the fan confirmed.
proof fn lemma_remembers_last_running(confirmations: Seq<(Fan, SetPoint)>)
    ensures
        confirmed_all(Brain { last_1: SetPoint::standing_still(), last_2: SetPoint::standing_still() }, confirmations).last_1
            == last_running(Fan::One, confirmations),
        confirmed_all(Brain { last_1: SetPoint::standing_still(), last_2: SetPoint::standing_still() }, confirmations).last_2
            == last_running(Fan::Two, confirmations),
    decreases confirmations.len(),
{
    if confirmations.len() > 0 {
        lemma_remembers_last_running(confirmations.drop_last());
    }
}

/// Whatever speeds the fans confirmed since the brain started, "on" for a fan asks for the last
/// running speed that fan confirmed, or for standing still when it confirmed none, and "off"
/// asks for standing still.
pub proof fn lemma_on_restores_last_running(confirmations: Seq<(Fan, SetPoint)>, fan: Fan, state: SetStateCommandValue)
    ensures
        ({
            let brain = confirmed_all(
                Brain { last_1: SetPoint::standing_still(), last_2: SetPoint::standing_still() },
                confirmations,
            );
            brain.actions(
                Ok(IncomingPublish::FanCommand { target: fan, command: FanCommand::SetState(state) }),
            ) == seq![
                BrainAction::SignalFan(
                    fan,
                    RequestedSetPoint::FromUser(
                        match state {
                            SetStateCommandValue::On => last_running(fan, confirmations),
                            SetStateCommandValue::Off => SetPoint::standing_still(),
                        },
                    ),
                ),
            ]
        }),
{
    lemma_remembers_last_running(confirmations);
}

/// A speed asked for either fan is asked of both, so the two never drift apart.
pub proof fn lemma_speed_keeps_fans_together(brain: Brain, target: Fan, set_point: SetPoint)
    ensures
        ({
            let actions = brain.actions(
                Ok(IncomingPublish::FanCommand { target, command: FanCommand::SetSpeed { set_point } }),
            );
            &&& actions.len() == 2
            &&& actions.contains(BrainAction::SignalFan(Fan::One, RequestedSetPoint::FromUser(set_point)))
            &&& actions.contains(BrainAction::SignalFan(Fan::Two, RequestedSetPoint::FromUser(set_point)))
        }),
{
    let actions = brain.actions(
        Ok(IncomingPublish::FanCommand { target, command: FanCommand::SetSpeed { set_point } }),
    );
    assert(actions[0] == actions[0]);
    assert(actions[1] == actions[1]);
}

} // verus!
