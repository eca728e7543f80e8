//! The Home Assistant MQTT device discovery payload: the device, where the discovery comes from,
//! and its components. These are plain values here; they are written out as JSON where the payload
//! is built.

use vstd::prelude::*;
use std::collections::HashMap;

use crate::mqtt::subscribe::QualityOfService;

verus! {

/// Where Home Assistant allows either a list or a single string.
pub enum ListOrString {
    List(Vec<String>),
    String(String),
}

/// The device the fans are a part of, to tie them into the device registry. Only works when a
/// component's unique id is set; at least one of identifiers or connections must be present.
pub struct Device {
    /// IDs that uniquely identify the device, such as a serial number
    pub identifiers: Option<ListOrString>,
    pub name: Option<String>,
    pub model: Option<String>,
    pub manufacturer: Option<String>,
    pub hardware_version: Option<String>,
    pub software_version: Option<String>,
}

impl Default for Device {
    fn default() -> (device: Self)
        ensures
            device.identifiers is None,
            device.name is None,
            device.model is None,
            device.manufacturer is None,
            device.hardware_version is None,
            device.software_version is None,
    {
        Device {
            identifiers: None,
            name: None,
            model: None,
            manufacturer: None,
            hardware_version: None,
            software_version: None,
        }
    }
}

/// The application that supplies the discovered items.
pub struct Origin {
    /// Required
    pub name: String,
    pub software_version: Option<String>,
    pub support_url: Option<String>,
}

impl Default for Origin {
    fn default() -> (origin: Self)
        ensures
            origin.name@ == Seq::<char>::empty(),
            origin.software_version is None,
            origin.support_url is None,
    {
        Origin { name: String::new(), software_version: None, support_url: None }
    }
}

/// A component of the device, told apart by its platform.
pub enum Component {
    Fan {
        /// Can be left out when only the device name is relevant
        name: Option<String>,
        /// Required with device based discovery; two fans with one id make Home Assistant raise
        unique_id: Option<String>,
        /// Where the fan's on and off state is published
        state_topic: Option<String>,
        /// Where Home Assistant publishes commands to turn the fan on and off
        command_topic: String,
        /// Where the fan's speed is published
        percentage_state_topic: Option<String>,
        /// Where Home Assistant publishes speeds
        percentage_command_topic: Option<String>,
        /// The speed that stands for 100 %. Home Assistant's default is 100
        speed_range_max: Option<u16>,
    },
}

/// The device based discovery payload, which requires the device and the origin.
pub struct DiscoveryPayload {
    pub device: Device,
    pub origin: Origin,
    pub components: HashMap<String, Component>,
    pub quality_of_service: Option<QualityOfService>,
    pub state_topic: Option<String>,
    pub command_topic: Option<String>,
    /// The encoding of the payloads; empty to disable decoding. Home Assistant's default is
    /// UTF-8
    pub encoding: Option<String>,
}

impl Default for DiscoveryPayload {
    fn default() -> (payload: Self)
        ensures
            payload.components@ == Map::<String, Component>::empty(),
            payload.quality_of_service is None,
            payload.state_topic is None,
            payload.command_topic is None,
            payload.encoding is None,
    {
        DiscoveryPayload {
            device: Device::default(),
            origin: Origin::default(),
            components: HashMap::new(),
            quality_of_service: None,
            state_topic: None,
            command_topic: None,
            encoding: None,
        }
    }
}

} // verus!
