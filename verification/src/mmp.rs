//! Link measurement.

pub mod algorithms;
