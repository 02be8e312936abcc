//! Stage implementations shipped with the engine.

pub mod basic;
pub mod static_demuxer;
