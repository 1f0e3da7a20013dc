//! Verified core of a mesh network daemon.

pub mod arith;
pub mod benchmark;
pub mod clock;
pub mod control;
pub mod dump;
pub mod identity;
pub mod instr;
pub mod laws;
pub mod mmp;
pub mod native;
pub mod node;
pub mod noise;
pub mod peer_policy;
pub mod recency;
pub mod run_loop;
pub mod text;
pub mod transport;
pub mod upper;
pub mod wide;
pub mod wire;
