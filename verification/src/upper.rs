//! What lies above the mesh: IPv6 traffic, proxies and their configuration.

pub mod config;
pub mod tcp_mss;
pub mod tcp_proxy;
