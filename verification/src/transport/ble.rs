//! Bluetooth Low Energy transport.

pub mod addr;
pub mod backoff;
pub mod bluest;
pub mod capabilities;
pub mod dial;
pub mod event_log;
pub mod io;
pub mod link;
pub mod peering;
pub mod rate_limit;
pub mod table;
