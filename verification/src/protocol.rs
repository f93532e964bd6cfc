//! Messages that clients and the daemon exchange: handshakes, snapshots,
//! deltas, responses, bridge events, and the envelope that carries them.
use crate::model::dto::Resource;
use vstd::prelude::*;

verus! {

/// What a connecting client is.
#[derive(Debug, Clone, Copy, PartialEq, Eq, Structural)]
pub enum Role {
    BrowserUi,
    MinecraftBridge,
    TestClient,
    Unknown,
}

#[derive(Debug, Clone, PartialEq)]
pub struct ClientHello {
    pub protocol_version: u32,
    pub client_name: String,
    pub role: Role,
    pub auth_token: Option<String>,
}

#[derive(Debug, Clone, PartialEq)]
pub struct ServerHello {
    pub protocol_version: u32,
    pub server_name: String,
}

/// The whole world at one simulation time, its parts summarised as text.
#[derive(Debug, Clone, PartialEq)]
pub struct WorldSnapshot {
    pub protocol_version: u32,
    pub model_version: u32,
    pub current_sim_time: u64,
    pub spaces: Vec<String>,
    pub nodes: Vec<String>,
    pub edges: Vec<String>,
    pub resource_registry_summary: Vec<String>,
    pub contract_registry_summary: Vec<String>,
}

/// One change to the world.
#[derive(Debug, Clone, PartialEq)]
pub enum WorldDelta {
    NodeAdded { node_id: String },
    NodeRemoved { node_id: String },
    NodeChanged { node_id: String },
    EdgeAdded { edge_id: String },
    EdgeRemoved { edge_id: String },
    LedgerChanged { ledger_id: String },
    SegmentChanged { segment_id: String },
    TimeAdvanced { new_time: u64 },
    FullResyncRequired,
}

/// The answer to a query.
#[derive(Debug, Clone, PartialEq)]
pub enum Response {
    Snapshot(WorldSnapshot),
    StateAt(String),
    NodeView(String),
    RegionView(String),
    Prediction(String),
    Error(String),
}

/// What the game bridge reports.
#[derive(Debug, Clone, PartialEq)]
pub enum BridgeEvent {
    ExternalNodeObserved { node_id: String },
    ExternalNodeRemoved { node_id: String },
    ExternalInventorySample { node_id: String, resources: Vec<Resource> },
    ExternalTransformerSample { node_id: String, status: String },
    ExternalTopologyChanged,
    ExternalTickMetrics { metrics: String },
}

/// A message with its id, protocol version and optional timestamp.
#[derive(Debug, Clone, PartialEq)]
pub struct ProtocolEnvelope<T> {
    pub message_id: String,
    pub protocol_version: u32,
    pub timestamp: Option<u64>,
    pub payload: T,
}

} // verus!
