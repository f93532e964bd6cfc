//! The data model: identifiers, resources and ledgers, filters, nodes,
//! edges, contracts and the world they make up.

pub mod id;
pub mod resource;
pub mod error;
pub mod filter;
pub mod time;
pub mod space;
pub mod edge;
pub mod node;
pub mod contract;
pub mod world;
pub mod dto;
