//! A manager of MIDI device connections.
//!
//! The manager keeps the list of devices that the driver reports, in a
//! fixed order and with a selection that follows a device by its identity;
//! the open connections, at most one for each device; and a bounded log of
//! status lines and inbound messages. It decides and records. The work on
//! the driver, the terminal and the disk is its caller's: the caller hands
//! in what the driver reported and learns from the result what to do next.

pub mod connections;
pub mod control;
pub mod device;
pub mod error;
pub mod log;
pub mod manager;
pub mod messages;
pub mod order;
pub mod registry;
pub mod session;
pub mod text;
