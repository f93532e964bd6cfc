//! Second-by-second simulation of the transformer line.
use super::spec::{run_ticks, step_line, stock, tick};
use super::types::{BaseState, SimulationEngine, StopReason, Transformer, TransformerState};
use crate::id_map::IdMap;
use vstd::prelude::*;

verus! {

/// The stock of `id` in `res`, zero without an entry.
pub(crate) fn stock_in(res: &IdMap<u32>, id: &String) -> (v: u32)
    ensures
        v == stock(res@, id@),
{
    match res.get_value(id) {
        Some(v) => v,
        None => 0,
    }
}

/// One simulated second of `t`, applied to the stocks and to its running state.
fn tick_once(t: &Transformer, limit: u32, res: &mut IdMap<u32>, s: &mut TransformerState) -> (stop:
    Option<StopReason>)
    requires
        tick(*t, limit, old(res)@, *old(s)) is Some,
    ensures
        tick(*t, limit, old(res)@, *old(s)) == Some((final(res)@, *final(s), stop)),
{
    if s.fuel_ops_left == 0 {
        let fuel = stock_in(res, &t.fuel_id);
        if fuel > 0 {
            res.insert(t.fuel_id.clone(), fuel - 1);
            s.fuel_ops_left = t.fuel_ops;
        } else {
            return Some(StopReason::FuelEmpty);
        }
    }
    let input = stock_in(res, &t.input_id);
    if input < t.input_qty {
        return Some(StopReason::InputEmpty);
    }
    let current_output = stock_in(res, &t.output_id);
    if current_output + t.output_qty > limit {
        return Some(StopReason::OutputFull);
    }
    s.progress_secs = s.progress_secs + 1;
    if s.progress_secs >= t.duration_secs {
        let before_input = stock_in(res, &t.input_id);
        res.insert(t.input_id.clone(), before_input - t.input_qty);
        let before_output = stock_in(res, &t.output_id);
        res.insert(t.output_id.clone(), before_output + t.output_qty);
        s.progress_secs = 0;
        s.fuel_ops_left = s.fuel_ops_left - 1;
    }
    None
}

impl SimulationEngine {
    /// Advances `state` by `delta` seconds, second by second, with this
    /// engine's transformers and capacities; the transformers run one after
    /// the other, and the first one that stops ends the step with its reason.
    pub fn step_debug(&self, state: &BaseState, delta: u64) -> (r: (BaseState, Option<StopReason>))
        requires
            state.time + delta <= u64::MAX,
            step_line(
                self.base_state.transformers@,
                self.base_state.capacities@,
                state.resources@,
                state.transformer_states@,
                delta as nat,
                0,
            ) is Some,
        ensures
            ({
                let (res, states, stop) = step_line(
                    self.base_state.transformers@,
                    self.base_state.capacities@,
                    state.resources@,
                    state.transformer_states@,
                    delta as nat,
                    0,
                )->0;
                &&& r.0.time == state.time + delta
                &&& r.0.resources@ == res
                &&& r.0.transformer_states@ == states
                &&& r.1 == stop
            }),
            r.0.capacities@ == state.capacities@,
            r.0.transformers@ == state.transformers@,
    {
        let ghost ts = self.base_state.transformers@;
        let ghost caps = self.base_state.capacities@;
        let ghost whole = step_line(
            ts,
            caps,
            state.resources@,
            state.transformer_states@,
            delta as nat,
            0,
        );
        let mut next_state = state.clone();
        let mut stop_reason: Option<StopReason> = None;
        let n = self.base_state.transformers.len();
        let mut i: usize = 0;
        while i < n && stop_reason.is_none()
            invariant
                n == ts.len(),
                i <= n,
                ts == self.base_state.transformers@,
                caps == self.base_state.capacities@,
                next_state.time == state.time,
                next_state.capacities@ == state.capacities@,
                next_state.transformers@ == state.transformers@,
                whole is Some,
                stop_reason is None ==> whole == step_line(
                    ts,
                    caps,
                    next_state.resources@,
                    next_state.transformer_states@,
                    delta as nat,
                    i as nat,
                ),
                stop_reason is Some ==> whole == Some(
                    (next_state.resources@, next_state.transformer_states@, stop_reason),
                ),
            decreases n - i,
        {
            let transformer = &self.base_state.transformers[i];
            let ghost states0 = next_state.transformer_states@;
            let ghost res0 = next_state.resources@;
            let mut t_state = match next_state.transformer_states.remove(&transformer.id) {
                Some(s) => s,
                None => TransformerState { progress_secs: 0, fuel_ops_left: 0 },
            };
            let ghost s0 = t_state;
            let limit = match self.base_state.capacities.get_value(&transformer.output_id) {
                Some(c) => c,
                None => u32::MAX,
            };
            let ghost run = run_ticks(*transformer, limit, res0, s0, delta as nat);
            let mut k: u64 = 0;
            while k < delta && stop_reason.is_none()
                invariant
                    k <= delta,
                    run is Some,
                    stop_reason is None ==> run == run_ticks(
                        *transformer,
                        limit,
                        next_state.resources@,
                        t_state,
                        (delta - k) as nat,
                    ),
                    stop_reason is Some ==> run == Some(
                        (next_state.resources@, t_state, stop_reason),
                    ),
                    next_state.transformer_states@ == states0.remove(transformer.id@),
                    next_state.time == state.time,
                    next_state.capacities@ == state.capacities@,
                    next_state.transformers@ == state.transformers@,
                decreases delta - k,
            {
                stop_reason = tick_once(transformer, limit, &mut next_state.resources, &mut t_state);
                k = k + 1;
            }
            next_state.transformer_states.insert(transformer.id.clone(), t_state);
            proof {
                assert(states0.remove(transformer.id@).insert(transformer.id@, t_state)
                    =~= states0.insert(transformer.id@, t_state));
            }
            i = i + 1;
        }
        next_state.time = next_state.time + delta;
        (next_state, stop_reason)
    }
}

} // verus!
