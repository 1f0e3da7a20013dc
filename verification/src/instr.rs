//! Profiling captures.

pub mod writer;
