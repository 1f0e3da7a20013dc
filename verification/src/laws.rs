//! What holds of the operations as a whole, stated on what goes in and what comes
//! out.

pub mod benchmark;
pub mod ble;
pub mod control;
pub mod discovery;
pub mod echo;
pub mod handshake;
pub mod link;
pub mod mmp;
pub mod routing;
pub mod tcp;
pub mod text;
pub mod transport;
