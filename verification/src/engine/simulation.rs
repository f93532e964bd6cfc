//! Queries on the engine: the state at a time, and committing it.
use super::spec::{computed_is, debug_run, prediction, SimOutcome};
use super::types::{BaseState, ComputedState, SimMode, SimulationEngine, SimulationError, StopReason};
use vstd::prelude::*;

verus! {

impl SimulationEngine {
    /// What a query for `target` computes in this engine's mode: a debug-tick
    /// run from the base state, or a prediction.
    pub open spec fn outcome_at(&self, target: u64) -> Option<SimOutcome> {
        match self.mode {
            SimMode::DebugTick(config) => debug_run(
                self.base_state.transformers@,
                self.base_state.capacities@,
                self.base_state.time,
                self.base_state.resources@,
                self.base_state.transformer_states@,
                target,
                config.tick_duration_secs,
            ),
            _ => prediction(
                self.base_state.transformers@,
                self.base_state.capacities@,
                self.base_state.time,
                self.base_state.resources@,
                self.base_state.transformer_states@,
                target,
            ),
        }
    }

    /// Whether a query for `target` is answered: it is refused for a time
    /// before the base state, and otherwise its computation must finish
    /// within the engine's integer range.
    pub open spec fn answers(&self, target: u64) -> bool {
        target < self.base_state.time || self.outcome_at(target) is Some
    }

    pub fn new(base_state: BaseState, mode: SimMode) -> (e: Self)
        ensures
            e.base_state == base_state,
            e.mode == mode,
    {
        SimulationEngine { base_state, mode }
    }

    /// The state at `target_time`: an error for a time before the base
    /// state; otherwise, in debug-tick mode, the base state simulated tick by
    /// tick up to `target_time` or to the first stop, and in the other modes
    /// the prediction.
    pub fn state_at(&self, target_time: u64) -> (r: Result<ComputedState, SimulationError>)
        requires
            self.answers(target_time),
        ensures
            target_time < self.base_state.time ==> r == Err::<ComputedState, SimulationError>(
                SimulationError::TimeInPast,
            ),
            target_time >= self.base_state.time ==> r is Ok && computed_is(
                r->Ok_0,
                self.outcome_at(target_time)->0,
            ),
    {
        if target_time < self.base_state.time {
            return Err(SimulationError::TimeInPast);
        }
        match &self.mode {
            SimMode::DebugTick(config) => {
                let ghost ts = self.base_state.transformers@;
                let ghost caps = self.base_state.capacities@;
                let ghost whole = self.outcome_at(target_time);
                let tick = config.tick_duration_secs;
                let mut current_state = self.base_state.clone();
                let mut current_time = current_state.time;
                let mut stop_reason: Option<StopReason> = None;
                while current_time < target_time && stop_reason.is_none()
                    invariant
                        ts == self.base_state.transformers@,
                        caps == self.base_state.capacities@,
                        current_state.time == current_time,
                        whole is Some,
                        stop_reason is None ==> whole == debug_run(
                            ts,
                            caps,
                            current_time,
                            current_state.resources@,
                            current_state.transformer_states@,
                            target_time,
                            tick,
                        ),
                        stop_reason is Some ==> whole == Some(
                            SimOutcome {
                                time: current_time,
                                resources: current_state.resources@,
                                states: current_state.transformer_states@,
                                stop: stop_reason,
                            },
                        ),
                    decreases target_time - current_time,
                {
                    let stepped = current_time + tick;
                    let next_time = if stepped < target_time {
                        stepped
                    } else {
                        target_time
                    };
                    let delta = next_time - current_time;
                    let result = self.step_debug(&current_state, delta);
                    current_state = result.0;
                    stop_reason = result.1;
                    current_time = next_time;
                }
                Ok(
                    ComputedState {
                        time: current_time,
                        resources: current_state.resources,
                        transformer_states: current_state.transformer_states,
                        stop_reason,
                    },
                )
            },
            SimMode::Predictive(_) => self.predict_until(target_time),
            SimMode::Hybrid(_) => self.predict_until(target_time),
        }
    }

    /// Commits the state at `target_time` as the new base state: its time,
    /// stocks and running states replace the base state's.
    pub fn materialize_at(&mut self, target_time: u64) -> (r: Result<(), SimulationError>)
        requires
            old(self).answers(target_time),
        ensures
            target_time < old(self).base_state.time ==> r == Err::<(), SimulationError>(
                SimulationError::TimeInPast,
            ) && *final(self) == *old(self),
            target_time >= old(self).base_state.time ==> {
                let o = old(self).outcome_at(target_time)->0;
                &&& r is Ok
                &&& final(self).base_state.time == o.time
                &&& final(self).base_state.resources@ == o.resources
                &&& final(self).base_state.transformer_states@ == o.states
                &&& final(self).base_state.capacities == old(self).base_state.capacities
                &&& final(self).base_state.transformers == old(self).base_state.transformers
                &&& final(self).mode == old(self).mode
            },
    {
        let computed_state = self.state_at(target_time)?;
        self.base_state.time = computed_state.time;
        self.base_state.resources = computed_state.resources;
        self.base_state.transformer_states = computed_state.transformer_states;
        Ok(())
    }
}

} // verus!
