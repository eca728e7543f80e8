//! The MQTT 5 packets the controller exchanges with the Home Assistant broker.

pub mod connect;
pub mod connect_acknowledgement;
pub mod disconnect;
pub mod packet;
pub mod ping;
pub mod publish;
pub mod session;
pub mod subscribe;
pub mod subscribe_acknowledgement;
pub mod variable_byte_integer;
