//! `nst`: the decisions and arithmetic of a network speed test, verified.
//!
//! A Measurement Run takes several round-trip Samples while the link is idle and
//! reduces them to one Idle Latency via the median ([`median`], [`latency`]); then it
//! runs a Download Phase and an Upload Phase, each made of concurrent Streams whose
//! byte counts add up to the Phase's Throughput ([`tally`]); each Stream keeps
//! transferring until its deadline ([`stream`]). The order of the parts and
//! the settings of a run are in [`measurement`]; the endpoint's addresses in [`endpoint`].
//!
//! The network transfers, the clock and the floating-point units are left to the caller.

pub mod endpoint;
pub mod latency;
pub mod measurement;
pub mod median;
pub mod stream;
pub mod tally;
