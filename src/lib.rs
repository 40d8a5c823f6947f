//! Capture, fan-out, recording and timed replay of a stream of byte frames.
pub mod adapters;
pub mod channel;
pub mod codec;
pub mod config;
pub mod frame;
pub mod pacing;
pub mod paths;
pub mod replay;
pub mod utils;
