//! Liminality: a resource-flow world model and a simulation engine for
//! transformer lines (furnaces and the like), with the protocol messages that
//! clients and the daemon exchange.

pub mod id_map;
pub mod model;
pub mod engine;
pub mod protocol;
