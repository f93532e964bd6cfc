//! The canonical simulation world: spaces of nodes and edges, and the
//! registries of resources and contracts.
use super::contract::TransformerContract;
use super::edge::Edge;
use super::id::{ContractId, EdgeId, NodeId, ResourceId, SpaceId};
use super::node::Node;
use std::collections::HashMap;
use vstd::prelude::*;

verus! {

#[derive(Debug, Clone, PartialEq, Eq)]
pub struct Space {
    pub id: SpaceId,
    pub nodes: HashMap<NodeId, Node>,
    pub edges: HashMap<EdgeId, Edge>,
}

#[derive(Debug, Clone, PartialEq, Eq)]
pub struct ResourceRegistry {
    pub resources: Vec<ResourceId>,
}

#[derive(Debug, Clone, PartialEq, Eq)]
pub struct ContractRegistry {
    pub contracts: HashMap<ContractId, TransformerContract>,
}

#[derive(Debug, Clone, PartialEq, Eq)]
pub struct WorldModel {
    pub spaces: HashMap<SpaceId, Space>,
    pub resources: ResourceRegistry,
    pub contracts: ContractRegistry,
}

} // verus!
