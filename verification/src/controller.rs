//! The decisions the firmware's routines take, each as a step from what a routine knows and what
//! just happened to what it does next. The routines themselves, which wait on the network, the
//! buses, timers and each other, only carry out these steps.

pub mod command;
pub mod outgoing;
pub mod display;
pub mod brain;
pub mod fan_control;
pub mod relay;
pub mod sensor_poll;
pub mod button;
pub mod led;
pub mod fan_state;
pub mod network;
