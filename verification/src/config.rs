//! The configuration of the balancer and the file that holds it.

pub mod document;
pub mod types;
