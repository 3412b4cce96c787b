//! Redirect construction for a plaintext listener that sends every request
//! on to the TLS endpoint of the same host.

pub mod ports;
pub mod rewrite;
pub mod substitution;
