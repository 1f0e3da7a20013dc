//! Key exchange diagnostics.

pub mod keylog;
