//! Verified parsing core for a host-statistics sampler.
//!
//! Kernel pseudo-files report resource counters as whitespace-delimited
//! text. This crate turns that text into typed records: aggregate CPU
//! tick counters, memory counters, per-interface network counters and
//! per-device disk counters, plus the snapshot assembly and the
//! collection-loop state machine that sequence the four readers.
//! All parsing here is pure: reading the pseudo-files and delivering
//! snapshots to a sink are the embedding program's concern.

pub mod collector;
pub mod cpu;
pub mod disk;
pub mod errors;
pub mod mem;
pub mod net;
pub mod snapshot;
pub mod text;
