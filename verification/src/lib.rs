//! Verified logic of a controller for two ebm-papst RadiCal ventilation fans, a bypass relay and
//! their Home Assistant integration over MQTT: the Modbus frames, the MQTT packet codecs, the
//! decoding of what the fans report, and the decisions the firmware's routines take.

pub mod async_callback;
pub mod bytes;
pub mod configuration;
pub mod controller;
pub mod dhcp;
pub mod discovery;
pub mod fan_client;
pub mod modbus;
pub mod sensor;
pub mod reset_cause;
pub mod set_point;
pub mod storage;
pub mod string_buffer;
pub mod text;
pub mod trusted;
pub mod user_setting;
pub mod mqtt;
