//! The controller's first way of talking to Home Assistant, with one state for both fans: a speed
//! and whether they are on, published on fixed topics.

use vstd::prelude::*;
use vstd::string::StringSliceAdditionalSpecFns;

use crate::bytes::same_bytes;
use crate::sensor::ascii_bytes;
use crate::set_point::{parsed_u16, parse_u16_text, SetPoint, MAX};
use crate::text::decimal;
use crate::trusted::{short_text_as_bytes, three_digits_from_u16};
use super::command::{off_payload, on_payload, Fan};
use vstd::utf8::valid_utf8;

verus! {

/// The speed both fans are set to, and whether they are on.
#[derive(Debug, Clone, Copy, PartialEq, Eq, Structural)]
pub struct FanState {
    pub setting: SetPoint,
    pub is_on: bool,
}

/// What a publish asks of the fans, given the state they are in: a speed on the percentage topic
/// turns them on at that speed; a command on `command_topic` turns them on when it is `ON` and
/// off otherwise, at the speed they had. Anything that cannot be read asks nothing.
pub open spec fn fan_state_request(
    topic: Seq<u8>,
    payload: Seq<u8>,
    command_topic: Seq<u8>,
    previous: Option<FanState>,
) -> Option<(Option<u16>, bool)> {
    if topic == "fancontroller/speed/percentage".spec_bytes() {
        if !valid_utf8(payload) {
            None
        } else {
            match parsed_u16(payload) {
                Some(value) => if value <= MAX {
                    Some((Some(value), true))
                } else {
                    None
                },
                None => None,
            }
        }
    } else if topic == command_topic {
        Some((None, payload == on_payload()))
    } else {
        None
    }
}

/// What a publish asks of the fans: see [`fan_state_request`]. A speed comes with its value; a
/// command keeps the speed the fans had, or zero when they had none.
pub fn handle_publish(
    topic_name: &str,
    payload: &[u8],
    command_topic: &str,
    previous: Option<FanState>,
) -> (state: Option<FanState>)
    ensures
        match fan_state_request(topic_name.spec_bytes(), payload@, command_topic.spec_bytes(), previous) {
            None => state is None,
            Some((Some(value), is_on)) => state matches Some(state) && state.setting@ == value
                && state.is_on == is_on,
            Some((None, is_on)) => state == Some(FanState {
                setting: match previous {
                    Some(previous) => previous.setting,
                    None => SetPoint::standing_still(),
                },
                is_on,
            }),
        },
{
    let topic = topic_name.as_bytes();
    if same_bytes(topic, "fancontroller/speed/percentage".as_bytes()) {
        if crate::trusted::str_from_utf8(payload).is_err() {
            return None;
        }
        let value = match parse_u16_text(payload) {
            Some(value) => value,
            None => return None,
        };
        return match SetPoint::new(value) {
            Ok(setting) => Some(FanState { setting, is_on: true }),
            Err(_) => None,
        };
    }
    if same_bytes(topic, command_topic.as_bytes()) {
        let is_on = payload.len() == 2 && payload[0] == 79 && payload[1] == 78;
        proof {
            if payload@ == on_payload() {
                assert(payload@[0] == 79 && payload@[1] == 78);
            }
            if is_on {
                assert(payload@ =~= on_payload());
            }
        }
        let setting = match previous {
            Some(previous) => previous.setting,
            None => SetPoint::zero(),
        };
        return Some(FanState { setting, is_on });
    }
    None
}

/// A publish with a fixed topic and payload.
pub enum PredefinedPublish {
    /// The fans' speed
    FanPercentageState { setting: SetPoint },
    /// Whether the fans are on
    FanOnState { is_on: bool },
    /// A fan's temperature sensor, in tenths of a degree as it reads them
    SensorTemperature { temperature: u16, fan: Fan },
}

/// The publishes that bring Home Assistant up to date with a fan state: on or off first, then
/// the speed.
pub fn state_updates(state: FanState) -> (updates: Vec<PredefinedPublish>)
    ensures
        updates@.len() == 2,
        updates@[0] matches PredefinedPublish::FanOnState { is_on } && is_on == state.is_on,
        updates@[1] matches PredefinedPublish::FanPercentageState { setting } && setting
            == state.setting,
{
    let mut updates: Vec<PredefinedPublish> = Vec::new();
    updates.push(PredefinedPublish::FanOnState { is_on: state.is_on });
    updates.push(PredefinedPublish::FanPercentageState { setting: state.setting });
    updates
}

/// A predefined publish's topic and payload.
pub struct PredefinedPacket {
    pub topic_name: &'static str,
    pub payload: Vec<u8>,
}

/// Copies bytes into a vector.
fn to_vec(bytes: &[u8]) -> (copy: Vec<u8>)
    ensures
        copy@ == bytes@,
{
    let mut copy: Vec<u8> = Vec::new();
    let mut index: usize = 0;
    while index < bytes.len()
        invariant
            index <= bytes@.len(),
            copy@ == bytes@.subrange(0, index as int),
        decreases bytes@.len() - index,
    {
        copy.push(bytes[index]);
        index = index + 1;
        assert(copy@ =~= bytes@.subrange(0, index as int));
    }
    assert(bytes@.subrange(0, bytes@.len() as int) =~= bytes@);
    copy
}

/// The topic and payload of a predefined publish: the speed in decimal on
/// `fancontroller/speed/percentage_state`; `ON` or `OFF` on `fancontroller/on/state`; a
/// temperature in decimal on the fan's sensor topic, or nothing when it takes more than three
/// digits. The temperature is divided by ten by the template Home Assistant was given.
pub fn predefined_packet(publish: &PredefinedPublish) -> (packet: Option<PredefinedPacket>)
    ensures
        match *publish {
            PredefinedPublish::FanPercentageState { setting } => packet matches Some(packet)
                && packet.topic_name == "fancontroller/speed/percentage_state"
                && packet.payload@ == ascii_bytes(decimal(setting@ as nat)),
            PredefinedPublish::FanOnState { is_on } => packet matches Some(packet)
                && packet.topic_name == "fancontroller/on/state"
                && packet.payload@ == (if is_on { on_payload() } else { off_payload() }),
            PredefinedPublish::SensorTemperature { temperature, fan } => if decimal(
                temperature as nat,
            ).len() <= 3 {
                packet matches Some(packet) && packet.topic_name == (match fan {
                    Fan::One => "fancontroller/sensor/fan-1/temperature",
                    Fan::Two => "fancontroller/sensor/fan-2/temperature",
                }) && packet.payload@ == ascii_bytes(decimal(temperature as nat))
            } else {
                packet is None
            },
        },
{
    match publish {
        PredefinedPublish::FanPercentageState { setting } => {
            let text = setting.to_string();
            let payload = to_vec(short_text_as_bytes(&text));
            Some(PredefinedPacket { topic_name: "fancontroller/speed/percentage_state", payload })
        },
        PredefinedPublish::FanOnState { is_on } => {
            let mut payload: Vec<u8> = Vec::new();
            payload.push(79);
            if *is_on {
                payload.push(78);
                assert(payload@ =~= on_payload());
            } else {
                payload.push(70);
                payload.push(70);
                assert(payload@ =~= off_payload());
            }
            Some(PredefinedPacket { topic_name: "fancontroller/on/state", payload })
        },
        PredefinedPublish::SensorTemperature { temperature, fan } => {
            let payload = match three_digits_from_u16(*temperature) {
                Ok(payload) => payload,
                Err(()) => return None,
            };
            let topic_name = match fan {
                Fan::One => "fancontroller/sensor/fan-1/temperature",
                Fan::Two => "fancontroller/sensor/fan-2/temperature",
            };
            Some(PredefinedPacket { topic_name, payload })
        },
    }
}

} // verus!
