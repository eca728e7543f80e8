//! What Home Assistant and the button ask for, and how a publish from the broker is read as such
//! a request.

use vstd::prelude::*;
use vstd::string::StringSliceAdditionalSpecFns;
use vstd::std_specs::convert::FromSpecImpl;

use crate::bytes::same_bytes;
use crate::mqtt::publish::Publish;
use crate::set_point::{parsed_u16, ParseSetPointError, SetPoint, SetPointOutOfBoundsError, MAX};
use crate::trusted::str_from_utf8;
use vstd::utf8::valid_utf8;

verus! {

/// One of the two fans.
#[derive(Debug, Clone, Copy, PartialEq, Eq, Structural)]
pub enum Fan {
    One,
    Two,
}

/// The on and off Home Assistant shows for a fan or the relay. The fans do not actually power
/// off: off is a speed of zero.
#[derive(Debug, Clone, Copy, PartialEq, Eq, Structural)]
pub enum SetStateCommandValue {
    On,
    Off,
}

/// Off for a fan standing still, on for any other speed.
pub open spec fn state_of(speed: SetPoint) -> SetStateCommandValue {
    if speed@ == 0 {
        SetStateCommandValue::Off
    } else {
        SetStateCommandValue::On
    }
}

impl From<bool> for SetStateCommandValue {
    fn from(is_on: bool) -> (value: Self) {
        if is_on {
            SetStateCommandValue::On
        } else {
            SetStateCommandValue::Off
        }
    }
}

impl FromSpecImpl<bool> for SetStateCommandValue {
    open spec fn obeys_from_spec() -> bool {
        true
    }

    open spec fn from_spec(is_on: bool) -> Self {
        if is_on {
            SetStateCommandValue::On
        } else {
            SetStateCommandValue::Off
        }
    }
}

impl From<SetPoint> for SetStateCommandValue {
    fn from(speed: SetPoint) -> (value: Self) {
        if speed.get() == 0 {
            SetStateCommandValue::Off
        } else {
            SetStateCommandValue::On
        }
    }
}

impl FromSpecImpl<SetPoint> for SetStateCommandValue {
    open spec fn obeys_from_spec() -> bool {
        true
    }

    open spec fn from_spec(speed: SetPoint) -> Self {
        state_of(speed)
    }
}

impl SetStateCommandValue {
    /// The state to report for a set point when there is no previous one to compare against,
    /// which is the first update after boot: not a change, but the state the fans were already in
    pub fn from_first(speed: SetPoint) -> (value: Option<Self>)
        ensures
            value == Some(state_of(speed)),
    {
        Some(Self::from(speed))
    }

    /// The state to report when the speed changes: on when a fan starts, off when it stops, and
    /// nothing when it only changes speed.
    pub fn from_change(old_speed: SetPoint, new_speed: SetPoint) -> (value: Option<Self>)
        ensures
            value == (if old_speed@ == 0 && new_speed@ != 0 {
                Some(SetStateCommandValue::On)
            } else if old_speed@ != 0 && new_speed@ == 0 {
                Some(SetStateCommandValue::Off)
            } else {
                None
            }),
    {
        if old_speed.get() == 0 && new_speed.get() != 0 {
            Some(SetStateCommandValue::On)
        } else if old_speed.get() != 0 && new_speed.get() == 0 {
            Some(SetStateCommandValue::Off)
        } else {
            None
        }
    }
}

/// A set point signalled to a fan's control routine, together with where it came from. The
/// origin decides whether a fan that cannot be reached drags the other one with it.
#[derive(Debug, Clone, Copy, PartialEq, Eq, Structural)]
pub enum RequestedSetPoint {
    /// Home Assistant or the button asked for this speed
    FromUser(SetPoint),
    /// The other fan is pushing this one back to the speed they were last in sync at, because its
    /// own write failed
    FromOtherFan(SetPoint),
}

impl RequestedSetPoint {
    /// The speed asked for.
    pub open spec fn requested(self) -> SetPoint {
        match self {
            RequestedSetPoint::FromUser(set_point) => set_point,
            RequestedSetPoint::FromOtherFan(set_point) => set_point,
        }
    }

    pub fn set_point(self) -> (set_point: SetPoint)
        ensures
            set_point == self.requested(),
    {
        match self {
            RequestedSetPoint::FromUser(set_point) => set_point,
            RequestedSetPoint::FromOtherFan(set_point) => set_point,
        }
    }

    /// Whether failing to apply this should push the other fan back, to keep the two from
    /// drifting apart. Only a request from a user does: a correction that fails means the bus is
    /// down, and answering it with another correction bounces it between the fans forever
    pub fn should_correct_other_fan(self) -> (should: bool)
        ensures
            should == (self is FromUser),
    {
        match self {
            RequestedSetPoint::FromUser(_) => true,
            RequestedSetPoint::FromOtherFan(_) => false,
        }
    }
}

/// What a fan is asked to do.
#[derive(Debug, Clone, Copy, PartialEq, Eq, Structural)]
pub enum FanCommand {
    SetSpeed { set_point: SetPoint },
    SetState(SetStateCommandValue),
}

/// A request that arrived over MQTT.
#[derive(Debug, Clone, Copy, PartialEq, Eq, Structural)]
pub enum IncomingPublish {
    FanCommand {
        /// The fan the publish is addressed to
        target: Fan,
        command: FanCommand,
    },
    /// Close or open the relay module's contact
    RelayCommand(SetStateCommandValue),
}

/// Why a publish could not be read as a request.
#[derive(Debug, Clone, Copy, PartialEq, Eq, Structural)]
pub enum FromPublishError {
    /// A speed payload that is not UTF-8
    InvalidStringPayload,
    /// A speed payload that is not a set point
    ParseSetPoint(ParseSetPointError),
    /// A state payload that is neither `ON` nor `OFF`
    InvalidSetStateCommandPayload,
    /// A topic that carries no request
    UnknownTopic,
}

/// The topics Home Assistant publishes commands on.
pub struct CommandTopics<'a> {
    pub fan_1_state: &'a str,
    pub fan_1_percentage: &'a str,
    pub fan_2_state: &'a str,
    pub fan_2_percentage: &'a str,
    pub relay_state: &'a str,
}

/// The payload `ON`.
pub open spec fn on_payload() -> Seq<u8> {
    seq![79u8, 78u8]
}

/// The payload `OFF`.
pub open spec fn off_payload() -> Seq<u8> {
    seq![79u8, 70u8, 70u8]
}

/// `ON` or `OFF`, or nothing for any other payload.
pub open spec fn state_payload(payload: Seq<u8>) -> Option<SetStateCommandValue> {
    if payload == on_payload() {
        Some(SetStateCommandValue::On)
    } else if payload == off_payload() {
        Some(SetStateCommandValue::Off)
    } else {
        None
    }
}

/// Reads an `ON` or `OFF` payload: see [`state_payload`].
fn read_state_payload(payload: &[u8]) -> (state: Option<SetStateCommandValue>)
    ensures
        state == state_payload(payload@),
{
    if payload.len() == 2 && payload[0] == 79 && payload[1] == 78 {
        assert(payload@ =~= on_payload());
        Some(SetStateCommandValue::On)
    } else if payload.len() == 3 && payload[0] == 79 && payload[1] == 70 && payload[2] == 70 {
        assert(payload@ =~= off_payload());
        Some(SetStateCommandValue::Off)
    } else {
        proof {
            if payload@ == on_payload() {
                assert(payload@.len() == 2 && payload@[0] == 79 && payload@[1] == 78);
            }
            if payload@ == off_payload() {
                assert(payload@.len() == 3 && payload@[0] == 79 && payload@[1] == 70);
            }
        }
        None
    }
}

/// What a speed payload asks for, as [`SetPoint::from_str`] reads it once it is UTF-8.
pub open spec fn speed_payload_is(payload: Seq<u8>, result: Result<FanCommand, FromPublishError>) -> bool {
    if !valid_utf8(payload) {
        result == Err::<FanCommand, FromPublishError>(FromPublishError::InvalidStringPayload)
    } else {
        match parsed_u16(payload) {
            None => result == Err::<FanCommand, FromPublishError>(
                FromPublishError::ParseSetPoint(ParseSetPointError::ParseInt),
            ),
            Some(value) => if value <= MAX {
                result matches Ok(FanCommand::SetSpeed { set_point }) && set_point@ == value
            } else {
                result == Err::<FanCommand, FromPublishError>(
                    FromPublishError::ParseSetPoint(
                        ParseSetPointError::SettingOutOfBounds(SetPointOutOfBoundsError),
                    ),
                )
            },
        }
    }
}

/// What a state payload asks for.
pub open spec fn state_payload_is(payload: Seq<u8>, result: Result<FanCommand, FromPublishError>) -> bool {
    match state_payload(payload) {
        Some(state) => result == Ok::<FanCommand, FromPublishError>(FanCommand::SetState(state)),
        None => result == Err::<FanCommand, FromPublishError>(
            FromPublishError::InvalidSetStateCommandPayload,
        ),
    }
}

/// Reads a speed payload.
fn read_speed_payload(payload: &[u8]) -> (result: Result<FanCommand, FromPublishError>)
    ensures
        speed_payload_is(payload@, result),
{
    let text = match str_from_utf8(payload) {
        Ok(text) => text,
        Err(_) => return Err(FromPublishError::InvalidStringPayload),
    };
    match SetPoint::from_str(text) {
        Ok(set_point) => {
            proof {
                SetPoint::lemma_with_value(set_point, parsed_u16(payload@).unwrap());
            }
            Ok(FanCommand::SetSpeed { set_point })
        },
        Err(error) => Err(FromPublishError::ParseSetPoint(error)),
    }
}

/// Reads a state payload.
fn read_state_command(payload: &[u8]) -> (result: Result<FanCommand, FromPublishError>)
    ensures
        state_payload_is(payload@, result),
{
    match read_state_payload(payload) {
        Some(state) => Ok(FanCommand::SetState(state)),
        None => Err(FromPublishError::InvalidSetStateCommandPayload),
    }
}

/// A fan command as the result of reading a publish addressed to `target`.
pub open spec fn for_fan(target: Fan, command: Result<FanCommand, FromPublishError>) -> Result<
    IncomingPublish,
    FromPublishError,
> {
    match command {
        Ok(command) => Ok(IncomingPublish::FanCommand { target, command }),
        Err(error) => Err(error),
    }
}

impl IncomingPublish {
    /// Reads a publish from the broker as a request. The topic decides what is asked for, tried
    /// in the order the fans' state, the fans' speed, and the relay's state; a state payload is
    /// `ON` or `OFF`, a speed payload a set point in decimal.
    pub fn try_from(publish: &Publish, topics: &CommandTopics) -> (result: Result<
        Self,
        FromPublishError,
    >)
        ensures
            ({
                let topic = publish.topic_name.spec_bytes();
                let payload = publish.payload@;
                if topic == topics.fan_1_state.spec_bytes() {
                    exists|command| state_payload_is(payload, command) && result == for_fan(Fan::One, command)
                } else if topic == topics.fan_1_percentage.spec_bytes() {
                    exists|command| speed_payload_is(payload, command) && result == for_fan(Fan::One, command)
                } else if topic == topics.fan_2_state.spec_bytes() {
                    exists|command| state_payload_is(payload, command) && result == for_fan(Fan::Two, command)
                } else if topic == topics.fan_2_percentage.spec_bytes() {
                    exists|command| speed_payload_is(payload, command) && result == for_fan(Fan::Two, command)
                } else if topic == topics.relay_state.spec_bytes() {
                    match state_payload(payload) {
                        Some(state) => result == Ok::<Self, FromPublishError>(
                            IncomingPublish::RelayCommand(state),
                        ),
                        None => result == Err::<Self, FromPublishError>(
                            FromPublishError::InvalidSetStateCommandPayload,
                        ),
                    }
                } else {
                    result == Err::<Self, FromPublishError>(FromPublishError::UnknownTopic)
                }
            }),
    {
        let topic = publish.topic_name.as_bytes();
        if same_bytes(topic, topics.fan_1_state.as_bytes()) {
            let command = read_state_command(publish.payload);
            return match command {
                Ok(command) => Ok(IncomingPublish::FanCommand { target: Fan::One, command }),
                Err(error) => Err(error),
            };
        }
        if same_bytes(topic, topics.fan_1_percentage.as_bytes()) {
            let command = read_speed_payload(publish.payload);
            return match command {
                Ok(command) => Ok(IncomingPublish::FanCommand { target: Fan::One, command }),
                Err(error) => Err(error),
            };
        }
        if same_bytes(topic, topics.fan_2_state.as_bytes()) {
            let command = read_state_command(publish.payload);
            return match command {
                Ok(command) => Ok(IncomingPublish::FanCommand { target: Fan::Two, command }),
                Err(error) => Err(error),
            };
        }
        if same_bytes(topic, topics.fan_2_percentage.as_bytes()) {
            let command = read_speed_payload(publish.payload);
            return match command {
                Ok(command) => Ok(IncomingPublish::FanCommand { target: Fan::Two, command }),
                Err(error) => Err(error),
            };
        }
        if same_bytes(topic, topics.relay_state.as_bytes()) {
            return match read_state_payload(publish.payload) {
                Some(state) => Ok(IncomingPublish::RelayCommand(state)),
                None => Err(FromPublishError::InvalidSetStateCommandPayload),
            };
        }
        Err(FromPublishError::UnknownTopic)
    }
}

} // verus!
