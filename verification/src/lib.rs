//! ICMP echo probing, subnet scanning and device-presence tracking.
//!
//! The crate holds the pure core of a ping utility: the echo wire codec,
//! the decisions of a single probe and of a probe session, the running
//! statistics, the per-cycle scan classifier and the presence hysteresis.
//! Sockets, clocks, terminals and storage are owned by the caller, which
//! feeds plain values in and performs the actions that come back.

pub mod address;
pub mod cli;
pub mod device;
pub mod error;
pub mod host;
pub mod icmp;
pub mod listing;
pub mod monitor;
pub mod network;
pub mod pinger;
pub mod presence;
pub mod session;
pub mod stats;
pub mod text;
pub mod ui;
