//! The engine's data: transformers, their running state, and the base state
//! that a simulation starts from.
use crate::id_map::IdMap;
use vstd::prelude::*;

verus! {

/// How the engine advances time.
#[derive(Debug, Clone, Copy, PartialEq, Eq, Structural)]
pub enum SimMode {
    /// Second-by-second simulation, in ticks of the configured length.
    DebugTick(DebugTickConfig),
    /// Closed-form prediction up to the next stop event.
    Predictive(PredictiveConfig),
    /// Predicts as `Predictive` does.
    Hybrid(HybridConfig),
}

#[derive(Debug, Clone, Copy, PartialEq, Eq, Structural)]
pub struct DebugTickConfig {
    pub tick_duration_secs: u64,
}

#[derive(Debug, Clone, Copy, PartialEq, Eq, Structural)]
pub struct PredictiveConfig {}

#[derive(Debug, Clone, Copy, PartialEq, Eq, Structural)]
pub struct HybridConfig {}

/// Why a transformer line stopped.
#[derive(Debug, Clone, Copy, PartialEq, Eq, Structural)]
pub enum StopReason {
    OutputFull,
    InputEmpty,
    FuelEmpty,
}

#[derive(Debug, Clone, Copy, PartialEq, Eq, Structural)]
pub enum SimulationError {
    TimeInPast,
    Stopped,
}

impl SimulationError {
    /// The error's message.
    pub fn message(&self) -> (s: &'static str)
        ensures
            s@ == (match self {
                SimulationError::TimeInPast => "Target time is in the past"@,
                SimulationError::Stopped => "Simulation stopped"@,
            }),
    {
        match self {
            SimulationError::TimeInPast => "Target time is in the past",
            SimulationError::Stopped => "Simulation stopped",
        }
    }
}

/// The state that a query computes for a given time.
#[derive(Debug, Clone, PartialEq)]
pub struct ComputedState {
    pub time: u64,
    pub resources: IdMap<u32>,
    pub transformer_states: IdMap<TransformerState>,
    pub stop_reason: Option<StopReason>,
}

/// The time at which, and the reason for which, the line is predicted to stop.
#[derive(Debug, Clone, Copy, PartialEq, Eq, Structural)]
pub struct PredictedEvent {
    pub time: u64,
    pub reason: StopReason,
}

/// A machine that turns `input_qty` of its input, with fuel, into
/// `output_qty` of its output every `duration_secs` seconds; one unit of fuel
/// lasts `fuel_ops` operations.
#[derive(Debug, PartialEq)]
pub struct Transformer {
    pub id: String,
    pub input_id: String,
    pub input_qty: u32,
    pub fuel_id: String,
    pub fuel_ops: u32,
    pub output_id: String,
    pub output_qty: u32,
    pub duration_secs: u64,
}

impl Clone for Transformer {
    fn clone(&self) -> (c: Self)
        ensures
            c == *self,
    {
        Transformer {
            id: self.id.clone(),
            input_id: self.input_id.clone(),
            input_qty: self.input_qty,
            fuel_id: self.fuel_id.clone(),
            fuel_ops: self.fuel_ops,
            output_id: self.output_id.clone(),
            output_qty: self.output_qty,
            duration_secs: self.duration_secs,
        }
    }
}

/// How far a transformer is into its current operation, and how many
/// operations its burning fuel still covers.
#[derive(Debug, Clone, Copy, PartialEq, Eq, Structural)]
pub struct TransformerState {
    pub progress_secs: u64,
    pub fuel_ops_left: u32,
}

/// A committed state of the world: the time, the stocks and capacities of
/// resources, the transformers and their running states.
#[derive(Debug, PartialEq)]
pub struct BaseState {
    pub time: u64,
    pub resources: IdMap<u32>,
    pub capacities: IdMap<u32>,
    pub transformers: Vec<Transformer>,
    pub transformer_states: IdMap<TransformerState>,
}

/// A copy of the transformers, each equal to the one it copies.
fn clone_transformers(ts: &Vec<Transformer>) -> (c: Vec<Transformer>)
    ensures
        c@ == ts@,
{
    let n = ts.len();
    let mut c: Vec<Transformer> = Vec::new();
    let mut i: usize = 0;
    while i < n
        invariant
            n == ts@.len(),
            i <= n,
            c@ =~= ts@.take(i as int),
        decreases n - i,
    {
        c.push(ts[i].clone());
        i = i + 1;
    }
    proof {
        assert(c@ =~= ts@);
    }
    c
}

impl Clone for BaseState {
    fn clone(&self) -> (c: Self)
        ensures
            c.time == self.time,
            c.resources@ == self.resources@,
            c.capacities@ == self.capacities@,
            c.transformers@ == self.transformers@,
            c.transformer_states@ == self.transformer_states@,
    {
        BaseState {
            time: self.time,
            resources: self.resources.clone(),
            capacities: self.capacities.clone(),
            transformers: clone_transformers(&self.transformers),
            transformer_states: self.transformer_states.clone(),
        }
    }
}

/// The simulation engine: a base state and the mode it simulates in.
pub struct SimulationEngine {
    pub base_state: BaseState,
    pub mode: SimMode,
}

} // verus!
