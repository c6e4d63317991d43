//! Backend records, request shapes and the wire-format envelopes.

pub mod errors;
pub mod functions;
pub mod pool;
pub mod types;
