//! Latency and throughput measurement between peers.

pub mod echo;
pub mod manager;
pub mod throughput;
pub mod types;

pub use manager::BenchmarkManager;
