//! fastlane: the verified core of an RFC 2544 network benchmarking tool.
//!
//! - `packet`: test packet layout, signature, payload pattern, UDP checksum
//!   and batch sizing;
//! - `dataplane`: bounded FIFO rings and a multi-queue generator;
//! - `payload`: payload generation in three patterns;
//! - `frameloss`: frame counts of frame loss trials and when a series ends;
//! - `config`: test, rate, output and port modes, integer settings and their
//!   defaults, the frame sizes of a run, validation of required settings;
//! - `pacing`: rate limiting modes;
//! - `latency`: latency samples and their order statistics;
//! - `back2back`: the burst search and threshold of the back-to-back test;
//! - `sorting`: ascending order of frame sizes and latencies;
//! - `time`: durations and instants.

pub mod back2back;
pub mod config;
pub mod dataplane;
pub mod frameloss;
pub mod latency;
pub mod pacing;
pub mod packet;
pub mod payload;
pub mod sorting;
pub mod time;
