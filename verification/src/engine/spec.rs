//! The mathematical model of the engine: what one simulated second does to a
//! transformer, what a debug-tick run computes, and what a prediction computes.
//!
//! Each model returns `None` exactly where the engine's integer arithmetic
//! would overflow, divide by zero or never finish.
use super::types::{ComputedState, PredictedEvent, StopReason, Transformer, TransformerState};
use vstd::prelude::*;

verus! {

/// Resource stocks, keyed by resource id.
pub type Stocks = Map<Seq<char>, u32>;

/// Running states, keyed by transformer id.
pub type RunStates = Map<Seq<char>, TransformerState>;

/// The stock of `id`; a resource without an entry has none.
pub open spec fn stock(res: Stocks, id: Seq<char>) -> u32 {
    if res.contains_key(id) {
        res[id]
    } else {
        0
    }
}

/// The capacity for `id`; a resource without an entry is bounded only by `u32::MAX`.
pub open spec fn capacity_of(caps: Stocks, id: Seq<char>) -> u32 {
    if caps.contains_key(id) {
        caps[id]
    } else {
        u32::MAX
    }
}

/// A transformer that has not started: no progress, no fuel burning.
pub open spec fn idle_state() -> TransformerState {
    TransformerState { progress_secs: 0, fuel_ops_left: 0 }
}

/// The running state of transformer `id`; one without an entry is idle.
pub open spec fn state_of(states: RunStates, id: Seq<char>) -> TransformerState {
    if states.contains_key(id) {
        states[id]
    } else {
        idle_state()
    }
}

/// Where a simulation ends: its time, stocks, running states and, when it
/// stopped early, why.
pub struct SimOutcome {
    pub time: u64,
    pub resources: Stocks,
    pub states: RunStates,
    pub stop: Option<StopReason>,
}

/// Whether a computed state is the outcome `o`.
pub open spec fn computed_is(c: ComputedState, o: SimOutcome) -> bool {
    &&& c.time == o.time
    &&& c.resources@ == o.resources
    &&& c.transformer_states@ == o.states
    &&& c.stop_reason == o.stop
}

/// One simulated second of transformer `t`, whose output may not exceed
/// `limit`: it refuels when no fuel burns, stops when fuel, input or output
/// room is missing, and otherwise advances its operation by a second,
/// completing it (input consumed, output produced, one fuel operation spent)
/// when the operation's duration is reached.
pub open spec fn tick(t: Transformer, limit: u32, res: Stocks, s: TransformerState) -> Option<
    (Stocks, TransformerState, Option<StopReason>),
> {
    let refuel = s.fuel_ops_left == 0;
    if refuel && stock(res, t.fuel_id@) == 0 {
        Some((res, s, Some(StopReason::FuelEmpty)))
    } else {
        let res1 = if refuel {
            res.insert(t.fuel_id@, (stock(res, t.fuel_id@) - 1) as u32)
        } else {
            res
        };
        let s1 = if refuel {
            TransformerState { progress_secs: s.progress_secs, fuel_ops_left: t.fuel_ops }
        } else {
            s
        };
        if stock(res1, t.input_id@) < t.input_qty {
            Some((res1, s1, Some(StopReason::InputEmpty)))
        } else if stock(res1, t.output_id@) + t.output_qty > u32::MAX {
            None
        } else if stock(res1, t.output_id@) + t.output_qty > limit {
            Some((res1, s1, Some(StopReason::OutputFull)))
        } else if s1.progress_secs == u64::MAX {
            None
        } else if s1.progress_secs + 1 >= t.duration_secs {
            if s1.fuel_ops_left == 0 {
                None
            } else {
                let res2 = res1.insert(
                    t.input_id@,
                    (stock(res1, t.input_id@) - t.input_qty) as u32,
                );
                let res3 = res2.insert(
                    t.output_id@,
                    (stock(res2, t.output_id@) + t.output_qty) as u32,
                );
                Some(
                    (
                        res3,
                        TransformerState {
                            progress_secs: 0,
                            fuel_ops_left: (s1.fuel_ops_left - 1) as u32,
                        },
                        None,
                    ),
                )
            }
        } else {
            Some(
                (
                    res1,
                    TransformerState {
                        progress_secs: (s1.progress_secs + 1) as u64,
                        fuel_ops_left: s1.fuel_ops_left,
                    },
                    None,
                ),
            )
        }
    }
}

/// Up to `n` seconds of transformer `t`, ending early at the first stop.
pub open spec fn run_ticks(
    t: Transformer,
    limit: u32,
    res: Stocks,
    s: TransformerState,
    n: nat,
) -> Option<(Stocks, TransformerState, Option<StopReason>)>
    decreases n,
{
    if n == 0 {
        Some((res, s, None))
    } else {
        match tick(t, limit, res, s) {
            None => None,
            Some((r, s2, stop)) => if stop is Some {
                Some((r, s2, stop))
            } else {
                run_ticks(t, limit, r, s2, (n - 1) as nat)
            },
        }
    }
}

/// `delta` seconds of the line, one transformer after the other from the
/// `i`-th: each runs its seconds in turn, and the line ends at the first
/// transformer that stops.
pub open spec fn step_line(
    ts: Seq<Transformer>,
    caps: Stocks,
    res: Stocks,
    states: RunStates,
    delta: nat,
    i: nat,
) -> Option<(Stocks, RunStates, Option<StopReason>)>
    decreases ts.len() - i,
{
    if i >= ts.len() {
        Some((res, states, None))
    } else {
        let t = ts[i as int];
        match run_ticks(t, capacity_of(caps, t.output_id@), res, state_of(states, t.id@), delta) {
            None => None,
            Some((r, s, stop)) => {
                let st = states.insert(t.id@, s);
                if stop is Some {
                    Some((r, st, stop))
                } else {
                    step_line(ts, caps, r, st, delta, i + 1)
                }
            },
        }
    }
}

/// A debug-tick run from `time` to `target` in ticks of `tick_len` seconds
/// (the last one cut short at `target`), ending early at the first stop.
pub open spec fn debug_run(
    ts: Seq<Transformer>,
    caps: Stocks,
    time: u64,
    res: Stocks,
    states: RunStates,
    target: u64,
    tick_len: u64,
) -> Option<SimOutcome>
    decreases target - time,
{
    if time >= target {
        Some(SimOutcome { time, resources: res, states, stop: None })
    } else if tick_len == 0 || time + tick_len > u64::MAX {
        None
    } else {
        let next: u64 = if time + tick_len < target {
            (time + tick_len) as u64
        } else {
            target
        };
        match step_line(ts, caps, res, states, (next - time) as nat, 0) {
            None => None,
            Some((r, st, stop)) => if stop is Some {
                Some(SimOutcome { time: next, resources: r, states: st, stop })
            } else {
                debug_run(ts, caps, next, r, st, target, tick_len)
            },
        }
    }
}

/// The smaller of two numbers.
pub open spec fn min_u32(a: u32, b: u32) -> u32 {
    if b < a {
        b
    } else {
        a
    }
}

/// When transformer `t` would stop, seen from the state at `time`: the
/// number of operations that input, fuel and output room each allow, the
/// least of them, and the time its last operation ends.
pub open spec fn transformer_event(
    t: Transformer,
    time: u64,
    res: Stocks,
    caps: Stocks,
    states: RunStates,
) -> Option<PredictedEvent> {
    let s = state_of(states, t.id@);
    let input = stock(res, t.input_id@);
    let fuel = stock(res, t.fuel_id@);
    let out = stock(res, t.output_id@);
    let space = capacity_of(caps, t.output_id@).saturating_sub(out);
    if t.input_qty == 0 || t.output_qty == 0 || fuel * t.fuel_ops > u32::MAX || fuel * t.fuel_ops
        + s.fuel_ops_left > u32::MAX {
        None
    } else {
        let by_input = (input / t.input_qty) as u32;
        let by_fuel = (fuel * t.fuel_ops + s.fuel_ops_left) as u32;
        let by_output = (space / t.output_qty) as u32;
        let lim = min_u32(min_u32(by_input, by_fuel), by_output);
        let busy = lim * t.duration_secs;
        if busy > u64::MAX || busy < s.progress_secs || time + (busy - s.progress_secs)
            > u64::MAX {
            None
        } else {
            Some(
                PredictedEvent {
                    time: (time + (busy - s.progress_secs)) as u64,
                    reason: if lim == by_output {
                        StopReason::OutputFull
                    } else if lim == by_input {
                        StopReason::InputEmpty
                    } else {
                        StopReason::FuelEmpty
                    },
                },
            )
        }
    }
}

/// The earliest of the events of the transformers from the `i`-th on and of
/// `acc`; of two at the same time, the earlier transformer's.
pub open spec fn earliest_event(
    ts: Seq<Transformer>,
    time: u64,
    res: Stocks,
    caps: Stocks,
    states: RunStates,
    i: nat,
    acc: Option<PredictedEvent>,
) -> Option<Option<PredictedEvent>>
    decreases ts.len() - i,
{
    if i >= ts.len() {
        Some(acc)
    } else {
        match transformer_event(ts[i as int], time, res, caps, states) {
            None => None,
            Some(ev) => {
                let acc2 = match acc {
                    Some(cur) => if ev.time < cur.time {
                        Some(ev)
                    } else {
                        acc
                    },
                    None => Some(ev),
                };
                earliest_event(ts, time, res, caps, states, i + 1, acc2)
            },
        }
    }
}

/// Division rounded up.
pub open spec fn ceil_div(a: u32, b: u32) -> u32 {
    ((a / b) + (if a % b == 0 {
        0int
    } else {
        1int
    })) as u32
}

/// `actual` seconds of transformer `t` in closed form: the operations its
/// progress completes, the input they take, the fuel units they burn and the
/// output they make, each stock kept at least zero.
pub open spec fn predict_transformer(t: Transformer, actual: u64, res: Stocks, states: RunStates) -> Option<
    (Stocks, RunStates),
> {
    let s = state_of(states, t.id@);
    if s.progress_secs + actual > u64::MAX || t.duration_secs == 0 {
        None
    } else {
        let total = (s.progress_secs + actual) as u64;
        let ops = (total / t.duration_secs) as u32;
        let progress = (total % t.duration_secs) as u64;
        if ops == 0 {
            Some(
                (
                    res,
                    states.insert(
                        t.id@,
                        TransformerState { progress_secs: progress, fuel_ops_left: s.fuel_ops_left },
                    ),
                ),
            )
        } else if res.contains_key(t.input_id@) && ops * t.input_qty > u32::MAX {
            None
        } else {
            let res1 = if res.contains_key(t.input_id@) {
                res.insert(t.input_id@, res[t.input_id@].saturating_sub((ops * t.input_qty) as u32))
            } else {
                res
            };
            let cover = ops.saturating_sub(s.fuel_ops_left);
            if cover > 0 && t.fuel_ops == 0 {
                None
            } else {
                let new_fuel: u32 = if cover > 0 {
                    ceil_div(cover, t.fuel_ops)
                } else if s.fuel_ops_left == 0 {
                    1
                } else {
                    0
                };
                let res2 = if new_fuel > 0 && res1.contains_key(t.fuel_id@) {
                    res1.insert(t.fuel_id@, res1[t.fuel_id@].saturating_sub(new_fuel))
                } else {
                    res1
                };
                if new_fuel * t.fuel_ops > u32::MAX || new_fuel * t.fuel_ops + s.fuel_ops_left
                    > u32::MAX || ops * t.output_qty > u32::MAX {
                    None
                } else {
                    let fuel_left = ((new_fuel * t.fuel_ops + s.fuel_ops_left) as u32).saturating_sub(
                        ops,
                    );
                    let made = (ops * t.output_qty) as u32;
                    let res3 = if res2.contains_key(t.output_id@) {
                        res2.insert(t.output_id@, res2[t.output_id@].saturating_add(made))
                    } else {
                        res2.insert(t.output_id@, made)
                    };
                    Some(
                        (
                            res3,
                            states.insert(
                                t.id@,
                                TransformerState { progress_secs: progress, fuel_ops_left: fuel_left },
                            ),
                        ),
                    )
                }
            }
        }
    }
}

/// `actual` seconds of every transformer from the `i`-th on, in closed form.
pub open spec fn predict_line(
    ts: Seq<Transformer>,
    actual: u64,
    res: Stocks,
    states: RunStates,
    i: nat,
) -> Option<(Stocks, RunStates)>
    decreases ts.len() - i,
{
    if i >= ts.len() {
        Some((res, states))
    } else {
        match predict_transformer(ts[i as int], actual, res, states) {
            None => None,
            Some((r, st)) => predict_line(ts, actual, r, st, i + 1),
        }
    }
}

/// The predicted state at `target`: the line runs up to `target`, or up to
/// the earliest predicted stop when that comes no later, and then reports why.
pub open spec fn prediction(
    ts: Seq<Transformer>,
    caps: Stocks,
    time: u64,
    res: Stocks,
    states: RunStates,
    target: u64,
) -> Option<SimOutcome> {
    match earliest_event(ts, time, res, caps, states, 0, None) {
        None => None,
        Some(ev) => {
            let (actual, stop) = match ev {
                Some(e) => if e.time <= target {
                    ((e.time - time) as u64, Some(e.reason))
                } else {
                    (target.saturating_sub(time), None)
                },
                None => (target.saturating_sub(time), None),
            };
            match predict_line(ts, actual, res, states, 0) {
                None => None,
                Some((r, st)) => Some(
                    SimOutcome { time: (time + actual) as u64, resources: r, states: st, stop },
                ),
            }
        },
    }
}

} // verus!
