//! Edge agent core: maps input-device key presses to outbound actions through a
//! static trigger table, frames those actions for a line-based wire protocol, and
//! drives the reconnecting transport as a plain state machine.
//!
//! Everything here is pure: reading devices, watching the filesystem and talking
//! to the network happen outside, and hand this library plain values.

pub mod protocol;
pub mod config;
pub mod devices;
pub mod transport;
