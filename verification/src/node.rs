//! Node state and the handlers that act on it.

pub mod discovery;
pub mod handshake;
pub mod local_endpoint;
pub mod lookup;
pub mod routing_error_rate_limit;
pub mod tables;
