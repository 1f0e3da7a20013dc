//! Local sockets of the native API.

pub mod seqpacket;
