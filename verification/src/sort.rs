//! The selection policies: how the backends of a chain are ordered before a
//! request is sent.

pub mod functions;
pub mod rate;
pub mod types;
