//! The tracker of block tips: what it subscribes to and what it does with
//! each frame that a backend sends.

pub mod types;
