//! A verified core for a composite virtual joystick.
//!
//! Several physical input devices (a joystick, a throttle, a spatial
//! controller) feed raw axis values into one multiplexer, which combines them
//! into the state of a single logical controller. That state is then packed
//! into a fixed 22-byte binary report for a HID-class virtual device.
//!
//! The multiplexer and the report encoder are verified: their contracts state
//! exactly which value every logical axis takes and which bit of the report
//! every field occupies.

pub mod config_loader;
pub mod gadget;
pub mod joystick_mux;
pub mod report;
