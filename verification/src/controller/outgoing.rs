//! What the controller publishes to Home Assistant, on which topic, and with which payload.

use vstd::prelude::*;
use vstd::string::StringSliceAdditionalSpecFns;

use crate::reset_cause::{reset_cause_text, ResetCause};
use crate::sensor::{ascii_bytes, JSON_CAPACITY};
use crate::set_point::SetPoint;
use crate::text::decimal;
use crate::trusted::{json_text_as_bytes, json_text_bytes, short_text_as_bytes, short_text_bytes};
use super::command::{off_payload, on_payload, Fan, SetStateCommandValue};

verus! {

/// A fan's speed as the text published for it.
pub struct UpdateSpeedPayload(pub heapless::String<5>);

impl UpdateSpeedPayload {
    /// The set point in decimal.
    pub fn from(set_point: SetPoint) -> (payload: Self)
        ensures
            short_text_bytes(payload.0) == ascii_bytes(decimal(set_point@ as nat)),
    {
        Self(set_point.to_string())
    }
}

/// What the controller publishes.
#[allow(inconsistent_fields)]
pub enum OutgoingPublish {
    /// The Home Assistant discovery payload, published on boot
    Discovery,
    /// Why the controller last reset. Published once per boot, retained, because the resets worth
    /// diagnosing happen when nobody is watching
    ResetCause(ResetCause),
    /// A fan's confirmed speed
    UpdateSpeed { fan: Fan, payload: UpdateSpeedPayload },
    /// A fan turned on or off
    UpdateState { fan: Fan, payload: SetStateCommandValue },
    /// All values a fan reports about itself, as the one JSON object its sensors read
    UpdateSensors { fan: Fan, payload: heapless::String<JSON_CAPACITY> },
    /// Where the relay's contact is, published only once the module has confirmed the write
    UpdateRelayState(SetStateCommandValue),
}

/// Where each publish goes, and the discovery payload, which are fixed when the firmware is built.
pub struct PublishTargets<'a> {
    pub discovery: &'a str,
    pub reset_cause: &'a str,
    pub fan_1_percentage_state: &'a str,
    pub fan_2_percentage_state: &'a str,
    pub fan_1_state: &'a str,
    pub fan_2_state: &'a str,
    pub fan_1_sensor_state: &'a str,
    pub fan_2_sensor_state: &'a str,
    pub relay_state: &'a str,
    pub discovery_payload: &'a [u8],
}

/// The topic a publish goes to.
pub open spec fn topic_of<'a>(publish: OutgoingPublish, targets: PublishTargets<'a>) -> &'a str {
    match publish {
        OutgoingPublish::Discovery => targets.discovery,
        OutgoingPublish::ResetCause(_) => targets.reset_cause,
        OutgoingPublish::UpdateSpeed { fan: Fan::One, .. } => targets.fan_1_percentage_state,
        OutgoingPublish::UpdateSpeed { fan: Fan::Two, .. } => targets.fan_2_percentage_state,
        OutgoingPublish::UpdateState { fan: Fan::One, .. } => targets.fan_1_state,
        OutgoingPublish::UpdateState { fan: Fan::Two, .. } => targets.fan_2_state,
        OutgoingPublish::UpdateSensors { fan: Fan::One, .. } => targets.fan_1_sensor_state,
        OutgoingPublish::UpdateSensors { fan: Fan::Two, .. } => targets.fan_2_sensor_state,
        OutgoingPublish::UpdateRelayState(_) => targets.relay_state,
    }
}

/// The fan a publish is about, if it is about one.
pub open spec fn fan_of(publish: OutgoingPublish) -> Option<Fan> {
    match publish {
        OutgoingPublish::UpdateSpeed { fan, .. } => Some(fan),
        OutgoingPublish::UpdateState { fan, .. } => Some(fan),
        OutgoingPublish::UpdateSensors { fan, .. } => Some(fan),
        _ => None,
    }
}

/// Whether `topic` is one of the topics that publish about `fan`.
pub open spec fn is_topic_of_fan(topic: &str, fan: Fan, targets: PublishTargets) -> bool {
    match fan {
        Fan::One => topic == targets.fan_1_percentage_state || topic == targets.fan_1_state
            || topic == targets.fan_1_sensor_state,
        Fan::Two => topic == targets.fan_2_percentage_state || topic == targets.fan_2_state
            || topic == targets.fan_2_sensor_state,
    }
}

/// Every topic the publishes go to.
pub open spec fn all_topics<'a>(targets: PublishTargets<'a>) -> Seq<&'a str> {
    seq![
        targets.discovery,
        targets.reset_cause,
        targets.fan_1_percentage_state,
        targets.fan_2_percentage_state,
        targets.fan_1_state,
        targets.fan_2_state,
        targets.fan_1_sensor_state,
        targets.fan_2_sensor_state,
        targets.relay_state,
    ]
}

/// Every publish about a fan goes to a topic of that fan and to none of the other fan's, and to a
/// topic of its kind: a speed to a percentage topic, an on or off state to a state topic, the
/// sensor readings to a sensor topic. A publish about no fan goes to no fan's topic. So, when all
/// topics differ, two publishes of one kind about different fans never share a topic.
pub proof fn lemma_publishes_go_to_their_fan(publish: OutgoingPublish, targets: PublishTargets)
    requires
        all_topics(targets).no_duplicates(),
    ensures
        fan_of(publish) matches Some(fan) ==> is_topic_of_fan(topic_of(publish, targets), fan, targets)
            && !is_topic_of_fan(
            topic_of(publish, targets),
            match fan {
                Fan::One => Fan::Two,
                Fan::Two => Fan::One,
            },
            targets,
        ),
        fan_of(publish) is None ==> !is_topic_of_fan(topic_of(publish, targets), Fan::One, targets)
            && !is_topic_of_fan(topic_of(publish, targets), Fan::Two, targets),
        publish is UpdateSpeed ==> topic_of(publish, targets) == targets.fan_1_percentage_state
            || topic_of(publish, targets) == targets.fan_2_percentage_state,
        publish is UpdateState ==> topic_of(publish, targets) == targets.fan_1_state
            || topic_of(publish, targets) == targets.fan_2_state,
        publish is UpdateSensors ==> topic_of(publish, targets) == targets.fan_1_sensor_state
            || topic_of(publish, targets) == targets.fan_2_sensor_state,
        publish is Discovery ==> topic_of(publish, targets) == targets.discovery,
        publish is ResetCause ==> topic_of(publish, targets) == targets.reset_cause,
        publish is UpdateRelayState ==> topic_of(publish, targets) == targets.relay_state,
{
    let topics = all_topics(targets);
    assert forall|i: int, j: int| 0 <= i < 9 && 0 <= j < 9 && i != j implies topics[i] != topics[j] by {
        assert(topics.no_duplicates());
    }
    assert(topics[0] == targets.discovery);
    assert(topics[1] == targets.reset_cause);
    assert(topics[2] == targets.fan_1_percentage_state);
    assert(topics[3] == targets.fan_2_percentage_state);
    assert(topics[4] == targets.fan_1_state);
    assert(topics[5] == targets.fan_2_state);
    assert(topics[6] == targets.fan_1_sensor_state);
    assert(topics[7] == targets.fan_2_sensor_state);
    assert(topics[8] == targets.relay_state);
}

/// `ON` or `OFF`.
pub open spec fn state_bytes(state: SetStateCommandValue) -> Seq<u8> {
    match state {
        SetStateCommandValue::On => on_payload(),
        SetStateCommandValue::Off => off_payload(),
    }
}

/// The payload of a publish.
pub open spec fn payload_of(publish: OutgoingPublish, targets: PublishTargets) -> Seq<u8> {
    match publish {
        OutgoingPublish::Discovery => targets.discovery_payload@,
        OutgoingPublish::ResetCause(cause) => reset_cause_text(cause).spec_bytes(),
        OutgoingPublish::UpdateSpeed { payload, .. } => short_text_bytes(payload.0),
        OutgoingPublish::UpdateState { payload, .. } => state_bytes(payload),
        OutgoingPublish::UpdateSensors { payload, .. } => json_text_bytes(payload),
        OutgoingPublish::UpdateRelayState(payload) => state_bytes(payload),
    }
}

/// `ON` or `OFF` as bytes.
fn state_payload_bytes(state: SetStateCommandValue) -> (bytes: &'static [u8])
    ensures
        bytes@ == state_bytes(state),
{
    match state {
        SetStateCommandValue::On => {
            let bytes: &'static [u8; 2] = &[79u8, 78u8];
            assert(bytes@ =~= on_payload());
            bytes.as_slice()
        },
        SetStateCommandValue::Off => {
            let bytes: &'static [u8; 3] = &[79u8, 70u8, 70u8];
            assert(bytes@ =~= off_payload());
            bytes.as_slice()
        },
    }
}

impl OutgoingPublish {
    /// The topic the publish goes to: see [`topic_of`].
    pub fn topic<'a>(&self, targets: &PublishTargets<'a>) -> (topic: &'a str)
        ensures
            topic == topic_of(*self, *targets),
    {
        match self {
            OutgoingPublish::Discovery => targets.discovery,
            OutgoingPublish::ResetCause(_) => targets.reset_cause,
            OutgoingPublish::UpdateSpeed { fan: Fan::One, .. } => targets.fan_1_percentage_state,
            OutgoingPublish::UpdateSpeed { fan: Fan::Two, .. } => targets.fan_2_percentage_state,
            OutgoingPublish::UpdateState { fan: Fan::One, .. } => targets.fan_1_state,
            OutgoingPublish::UpdateState { fan: Fan::Two, .. } => targets.fan_2_state,
            OutgoingPublish::UpdateSensors { fan: Fan::One, .. } => targets.fan_1_sensor_state,
            OutgoingPublish::UpdateSensors { fan: Fan::Two, .. } => targets.fan_2_sensor_state,
            OutgoingPublish::UpdateRelayState(_) => targets.relay_state,
        }
    }

    /// The payload of the publish: see [`payload_of`].
    pub fn payload<'a>(&'a self, targets: &'a PublishTargets<'a>) -> (payload: &'a [u8])
        ensures
            payload@ == payload_of(*self, *targets),
    {
        match self {
            OutgoingPublish::Discovery => targets.discovery_payload,
            OutgoingPublish::ResetCause(cause) => cause.as_str().as_bytes(),
            OutgoingPublish::UpdateSpeed { payload, .. } => short_text_as_bytes(&payload.0),
            OutgoingPublish::UpdateState { payload, .. } => state_payload_bytes(*payload),
            OutgoingPublish::UpdateSensors { payload, .. } => json_text_as_bytes(payload),
            OutgoingPublish::UpdateRelayState(payload) => state_payload_bytes(*payload),
        }
    }

    /// Only the reset cause is retained by the broker.
    pub fn is_retained(&self) -> (retained: bool)
        ensures
            retained == (*self is ResetCause),
    {
        match self {
            OutgoingPublish::ResetCause(_) => true,
            _ => false,
        }
    }
}

} // verus!
