//! Audio capture and spectrum pipeline: the decisions, layouts and state
//! that turn a live interleaved sample stream into per-channel frequency
//! buckets, and the lifecycle of the capture thread that feeds it.
//!
//! The numeric transforms run on a sample type chosen by the caller; the
//! items here are generic over it and fix everything about the data flow
//! that does not depend on arithmetic on the samples themselves.
//!
//! - [`device`]: resolving a configured device name.
//! - [`capture`]: the stream callback's decisions and channel splitting.
//! - [`spectrum`]: power-of-two padding and log-bucket indices.
//! - [`buckets`]: neighbourhood smoothing and the silence gate.
//! - [`state`]: previous-frame buckets and temporal interpolation.
//! - [`pipeline`]: start, restart and shutdown of the capture thread.
//! - [`visualization`]: render modes and the channel layout they consume.
//! - [`monitor`]: finding the capture stream in the sound server's listing.

pub mod device;
pub mod capture;
pub mod spectrum;
pub mod buckets;
pub mod state;
pub mod pipeline;
pub mod visualization;
pub mod monitor;
