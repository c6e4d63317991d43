//! A JSON-RPC load balancer for blockchain nodes: the backend pool, the
//! rolling statistics that feed node selection, the selection policies, the
//! request classifier and the decisions of the dispatcher and of the
//! block-tip tracker, each with a verified contract.

pub mod clock;
pub mod config;
pub mod json;
pub mod rpc;
pub mod sort;
pub mod text;
pub mod websocket;
