//! Transmission engine of a synthetic UDP traffic generator.
//!
//! A run is a list of flows. Each flow has a source address, a destination,
//! a rate and a packet length, and is sent as bursts of zero-filled
//! datagrams with a rest between two bursts.
//!
//! The library decides and never touches the network: it says which
//! endpoint to bind, whether the run starts, which datagram goes where and
//! how long to rest. Whoever drives it binds, sends and sleeps, and tells
//! it how that went.
//!
//! - [`address`] and [`flow`]: endpoints and the description of a flow;
//! - [`tx_block`]: the context a flow transmits from;
//! - [`pacing`]: the rest between bursts and the burst-and-rest schedule;
//! - [`orchestrator`]: the startup, in which every flow is bound or none
//!   starts;
//! - [`probe`]: a single datagram outside any flow.

pub mod address;
pub mod flow;
pub mod orchestrator;
pub mod pacing;
pub mod probe;
pub mod tx_block;
