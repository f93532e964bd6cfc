//! Edges, which connect nodes.
use super::filter::ResourceFilter;
use super::id::{EdgeId, NodeId};
use super::resource::Amount;
use vstd::prelude::*;

verus! {

#[derive(Debug, Clone, PartialEq, Eq)]
pub struct Edge {
    pub id: EdgeId,
    pub from: NodeId,
    pub to: NodeId,
    pub filter: Option<ResourceFilter>,
    pub throughput: Option<Amount>,
    pub latency: Option<u64>,
}

} // verus!
