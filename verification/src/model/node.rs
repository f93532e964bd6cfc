//! Node kinds and the node that wraps them.
use super::filter::{GateExpr, ResourceFilter};
use super::id::{ContractId, GateId, NodeId};
use super::resource::{Amount, ResourceLedger};
use super::space::SpacePos;
use vstd::prelude::*;

verus! {

#[derive(Debug, Clone, PartialEq, Eq)]
pub struct StorageNode {
    pub contents: ResourceLedger,
    pub accepts_filter: ResourceFilter,
    pub exposes_filter: ResourceFilter,
}

#[derive(Debug, Clone, PartialEq, Eq)]
pub struct PipeNode {
    pub throughput: Option<Amount>,
    pub filter: ResourceFilter,
    pub directional: bool,
}

#[derive(Debug, Clone, PartialEq, Eq)]
pub struct WarpNode {
    pub target: SpacePos,
    pub latency: Option<u64>,
    pub throughput: Option<Amount>,
    pub filter: ResourceFilter,
}

#[derive(Debug, Clone, PartialEq, Eq)]
pub struct TransformerNode {
    pub contract: ContractId,
}

#[derive(Debug, Clone, PartialEq, Eq)]
pub struct InputNode {
    pub external_id: String,
    pub filter: ResourceFilter,
    pub rate_limit: Option<Amount>,
    pub gate: Option<GateId>,
}

#[derive(Debug, Clone, PartialEq, Eq)]
pub struct OutputNode {
    pub external_id: String,
    pub filter: ResourceFilter,
    pub rate_limit: Option<Amount>,
    pub gate: Option<GateId>,
}

#[derive(Debug, Clone, PartialEq, Eq)]
pub struct GateNode {
    pub expr: GateExpr,
}

#[derive(Debug, Clone, PartialEq, Eq)]
pub enum NodeKind {
    Storage(StorageNode),
    Pipe(PipeNode),
    Warp(WarpNode),
    Transformer(TransformerNode),
    Input(InputNode),
    Output(OutputNode),
    Gate(GateNode),
}

#[derive(Debug, Clone, PartialEq, Eq)]
pub struct Node {
    pub id: NodeId,
    pub pos: SpacePos,
    pub kind: NodeKind,
}

} // verus!
