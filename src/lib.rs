//! Addressing, packet encoding, pulse trains and command dispatch for
//! radio-switched power outlets.
pub mod addressing;
pub mod codec;
pub mod devices;
pub mod config;
pub mod pulse;
