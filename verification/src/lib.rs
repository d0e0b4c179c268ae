//! A bridge between a microcontroller on a serial line and this machine: the state of a music
//! player, the spectrum of an analyser, figures of the machine, and commands that come back.
//!
//! The library holds the rules, the parsers, the queue and the state machines; it does no input or
//! output. Times are nanoseconds of a monotonic clock that the caller hands in.

pub mod action_runner;
pub mod bridge;
pub mod cava_bridge;
pub mod cava_manager;
pub mod config_manager;
pub mod cooldown;
pub mod device_identifier;
pub mod devices;
pub mod error;
pub mod hybrid_bridge;
pub mod json;
pub mod laws;
pub mod logger;
pub mod mpd_bridge;
pub mod mpd_client;
pub mod paths;
pub mod pieces;
pub mod reconnection;
pub mod serial_comm;
pub mod serial_queue;
pub mod sysinfo_bridge;
pub mod text;
pub mod watcher;
pub mod wire;
