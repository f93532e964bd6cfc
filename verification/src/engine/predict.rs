//! Closed-form prediction of the transformer line.
use super::debug::stock_in;
use super::spec::{
    capacity_of, ceil_div, computed_is, earliest_event, min_u32, predict_line,
    predict_transformer, prediction, state_of, transformer_event,
};
use super::types::{
    ComputedState, PredictedEvent, SimulationEngine, SimulationError, StopReason, Transformer,
    TransformerState,
};
use crate::id_map::IdMap;
use vstd::prelude::*;

verus! {

/// The capacity for `id` in `caps`, `u32::MAX` without an entry.
pub(crate) fn capacity_in(caps: &IdMap<u32>, id: &String) -> (v: u32)
    ensures
        v == capacity_of(caps@, id@),
{
    match caps.get_value(id) {
        Some(v) => v,
        None => u32::MAX,
    }
}

/// The running state of transformer `id`, idle without an entry.
pub(crate) fn state_in(states: &IdMap<TransformerState>, id: &String) -> (s: TransformerState)
    ensures
        s == state_of(states@, id@),
{
    match states.get_value(id) {
        Some(s) => s,
        None => TransformerState { progress_secs: 0, fuel_ops_left: 0 },
    }
}

/// Events of the earliest fold never come before the time they are seen from.
pub proof fn lemma_event_not_before(
    ts: Seq<Transformer>,
    time: u64,
    res: Map<Seq<char>, u32>,
    caps: Map<Seq<char>, u32>,
    states: Map<Seq<char>, TransformerState>,
    i: nat,
    acc: Option<PredictedEvent>,
)
    requires
        earliest_event(ts, time, res, caps, states, i, acc) is Some,
        acc matches Some(a) ==> a.time >= time,
    ensures
        earliest_event(ts, time, res, caps, states, i, acc)->0 matches Some(e) ==> e.time >= time,
    decreases ts.len() - i,
{
    if i < ts.len() {
        let ev = transformer_event(ts[i as int], time, res, caps, states)->0;
        let acc2 = match acc {
            Some(cur) => if ev.time < cur.time {
                Some(ev)
            } else {
                acc
            },
            None => Some(ev),
        };
        lemma_event_not_before(ts, time, res, caps, states, i + 1, acc2);
    }
}

/// `actual` seconds of `t` in closed form, applied to the stocks and running states.
fn predict_one(
    t: &Transformer,
    actual: u64,
    res: &mut IdMap<u32>,
    states: &mut IdMap<TransformerState>,
)
    requires
        predict_transformer(*t, actual, old(res)@, old(states)@) is Some,
    ensures
        predict_transformer(*t, actual, old(res)@, old(states)@) == Some(
            (final(res)@, final(states)@),
        ),
{
    let ghost states0 = states@;
    let mut t_state = match states.remove(&t.id) {
        Some(s) => s,
        None => TransformerState { progress_secs: 0, fuel_ops_left: 0 },
    };
    let fuel_left0 = t_state.fuel_ops_left;
    let total_progress = t_state.progress_secs + actual;
    let ops = #[verifier::truncate] ((total_progress / t.duration_secs) as u32);
    t_state.progress_secs = total_progress % t.duration_secs;
    if ops > 0 {
        match res.get_value(&t.input_id) {
            Some(input) => {
                res.insert(t.input_id.clone(), input.saturating_sub(ops * t.input_qty));
            },
            None => {},
        }
        let to_cover = ops.saturating_sub(t_state.fuel_ops_left);
        let new_fuel_needed: u32 = if to_cover > 0 {
            let q: u64 = (to_cover / t.fuel_ops) as u64;
            let extra: u64 = if to_cover % t.fuel_ops == 0 {
                0
            } else {
                1
            };
            #[verifier::truncate]
            ((q + extra) as u32)
        } else if t_state.fuel_ops_left == 0 {
            1
        } else {
            0
        };
        assert(new_fuel_needed == (if to_cover > 0 {
            ceil_div(to_cover, t.fuel_ops)
        } else if fuel_left0 == 0 {
            1u32
        } else {
            0u32
        }));
        if new_fuel_needed > 0 {
            match res.get_value(&t.fuel_id) {
                Some(fuel) => {
                    res.insert(t.fuel_id.clone(), fuel.saturating_sub(new_fuel_needed));
                },
                None => {},
            }
        }
        let total_fuel_ops = new_fuel_needed * t.fuel_ops + t_state.fuel_ops_left;
        t_state.fuel_ops_left = total_fuel_ops.saturating_sub(ops);
        let made = ops * t.output_qty;
        match res.get_value(&t.output_id) {
            Some(output) => {
                res.insert(t.output_id.clone(), output.saturating_add(made));
            },
            None => {
                res.insert(t.output_id.clone(), made);
            },
        }
    }
    states.insert(t.id.clone(), t_state);
    proof {
        assert(states0.remove(t.id@).insert(t.id@, t_state) =~= states0.insert(t.id@, t_state));
    }
}

impl SimulationEngine {
    /// The earliest predicted stop of the line, in closed form from the base
    /// state: for each transformer, the operations that its input, its fuel
    /// (stock and burning) and its output room allow; the least of them sets
    /// the time its last operation ends and the reason. Of transformers that
    /// stop at the same time, the first in line gives the event.
    pub fn next_event_after(&self, _time: u64) -> (r: Option<PredictedEvent>)
        requires
            earliest_event(
                self.base_state.transformers@,
                self.base_state.time,
                self.base_state.resources@,
                self.base_state.capacities@,
                self.base_state.transformer_states@,
                0,
                None,
            ) is Some,
        ensures
            r == earliest_event(
                self.base_state.transformers@,
                self.base_state.time,
                self.base_state.resources@,
                self.base_state.capacities@,
                self.base_state.transformer_states@,
                0,
                None,
            )->0,
    {
        let ghost ts = self.base_state.transformers@;
        let ghost time = self.base_state.time;
        let ghost res = self.base_state.resources@;
        let ghost caps = self.base_state.capacities@;
        let ghost states = self.base_state.transformer_states@;
        let ghost whole = earliest_event(ts, time, res, caps, states, 0, None);
        let mut earliest_event_found: Option<PredictedEvent> = None;
        let n = self.base_state.transformers.len();
        let mut i: usize = 0;
        while i < n
            invariant
                n == ts.len(),
                i <= n,
                ts == self.base_state.transformers@,
                time == self.base_state.time,
                res == self.base_state.resources@,
                caps == self.base_state.capacities@,
                states == self.base_state.transformer_states@,
                whole is Some,
                whole == earliest_event(ts, time, res, caps, states, i as nat, earliest_event_found),
            decreases n - i,
        {
            let transformer = &self.base_state.transformers[i];
            let t_state = state_in(&self.base_state.transformer_states, &transformer.id);
            let input_available = stock_in(&self.base_state.resources, &transformer.input_id);
            let fuel_available = stock_in(&self.base_state.resources, &transformer.fuel_id);
            let current_output = stock_in(&self.base_state.resources, &transformer.output_id);
            let max_output = capacity_in(&self.base_state.capacities, &transformer.output_id);
            let ghost ev = transformer_event(*transformer, time, res, caps, states);
            assert(ev is Some);
            let output_space = max_output.saturating_sub(current_output);
            let max_ops_input = input_available / transformer.input_qty;
            let max_ops_fuel = fuel_available * transformer.fuel_ops + t_state.fuel_ops_left;
            let max_ops_output = output_space / transformer.output_qty;
            let by_input_fuel = if max_ops_fuel < max_ops_input {
                max_ops_fuel
            } else {
                max_ops_input
            };
            let limiting_ops = if max_ops_output < by_input_fuel {
                max_ops_output
            } else {
                by_input_fuel
            };
            assert(limiting_ops == min_u32(min_u32(max_ops_input, max_ops_fuel), max_ops_output));
            let time_to_stop = (limiting_ops as u64) * transformer.duration_secs
                - t_state.progress_secs;
            let event_time = self.base_state.time + time_to_stop;
            let reason = if limiting_ops == max_ops_output {
                StopReason::OutputFull
            } else if limiting_ops == max_ops_input {
                StopReason::InputEmpty
            } else {
                StopReason::FuelEmpty
            };
            assert(ev == Some(PredictedEvent { time: event_time, reason }));
            match earliest_event_found {
                Some(current_earliest) => {
                    if event_time < current_earliest.time {
                        earliest_event_found = Some(PredictedEvent { time: event_time, reason });
                    }
                },
                None => {
                    earliest_event_found = Some(PredictedEvent { time: event_time, reason });
                },
            }
            i = i + 1;
        }
        earliest_event_found
    }

    /// The state at `target_time` in closed form: every transformer runs
    /// until `target_time`, or until the earliest predicted stop when that
    /// comes no later, whose reason the result then carries. Its operations
    /// take input and fuel (never below zero) and add output (at most
    /// `u32::MAX`).
    pub fn predict_until(&self, target_time: u64) -> (r: Result<ComputedState, SimulationError>)
        requires
            prediction(
                self.base_state.transformers@,
                self.base_state.capacities@,
                self.base_state.time,
                self.base_state.resources@,
                self.base_state.transformer_states@,
                target_time,
            ) is Some,
        ensures
            r is Ok,
            computed_is(
                r->Ok_0,
                prediction(
                    self.base_state.transformers@,
                    self.base_state.capacities@,
                    self.base_state.time,
                    self.base_state.resources@,
                    self.base_state.transformer_states@,
                    target_time,
                )->0,
            ),
    {
        let ghost ts = self.base_state.transformers@;
        let ghost time = self.base_state.time;
        let ghost res0 = self.base_state.resources@;
        let ghost caps = self.base_state.capacities@;
        let ghost states0 = self.base_state.transformer_states@;
        let delta = target_time.saturating_sub(self.base_state.time);
        let mut computed_resources = self.base_state.resources.clone();
        let mut computed_t_states = self.base_state.transformer_states.clone();
        let mut final_stop_reason: Option<StopReason> = None;
        let mut actual_delta = delta;
        proof {
            lemma_event_not_before(ts, time, res0, caps, states0, 0, None);
        }
        match self.next_event_after(self.base_state.time) {
            Some(event) => {
                if event.time <= target_time {
                    actual_delta = event.time - self.base_state.time;
                    final_stop_reason = Some(event.reason);
                }
            },
            None => {},
        }
        let ghost whole = predict_line(ts, actual_delta, res0, states0, 0);
        assert(whole is Some);
        let n = self.base_state.transformers.len();
        let mut i: usize = 0;
        while i < n
            invariant
                n == ts.len(),
                i <= n,
                ts == self.base_state.transformers@,
                whole is Some,
                whole == predict_line(
                    ts,
                    actual_delta,
                    computed_resources@,
                    computed_t_states@,
                    i as nat,
                ),
            decreases n - i,
        {
            let transformer = &self.base_state.transformers[i];
            predict_one(transformer, actual_delta, &mut computed_resources, &mut computed_t_states);
            i = i + 1;
        }
        Ok(
            ComputedState {
                time: self.base_state.time + actual_delta,
                resources: computed_resources,
                transformer_states: computed_t_states,
                stop_reason: final_stop_reason,
            },
        )
    }
}

} // verus!
