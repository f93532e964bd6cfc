//! The simulation engine: debug-tick and predictive modes over a base state.

pub mod types;
pub mod spec;
pub mod debug;
pub mod predict;
pub mod simulation;
pub mod furnace;
pub mod laws;
pub mod furnace_modes;
pub mod commit;
pub mod operations;

pub use types::{
    BaseState, ComputedState, DebugTickConfig, HybridConfig, PredictedEvent,
    PredictiveConfig, SimMode, SimulationEngine, SimulationError, StopReason, Transformer,
    TransformerState,
};
