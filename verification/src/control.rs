//! The control socket.

pub mod commands;
