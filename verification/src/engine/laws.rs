//! What every query of the engine keeps.
use super::predict::lemma_event_not_before;
use super::spec::{
    capacity_of, ceil_div, debug_run, earliest_event, min_u32, predict_line, predict_transformer,
    prediction, run_ticks, state_of, step_line, stock, tick, transformer_event, RunStates, Stocks,
};
use super::types::{
    PredictedEvent, SimMode, SimulationEngine, StopReason, Transformer, TransformerState,
};
use vstd::prelude::*;

verus! {

/// Every stock that has a capacity is within it.
pub open spec fn within_capacities(res: Stocks, caps: Stocks) -> bool {
    forall|k: Seq<char>| #[trigger] caps.contains_key(k) ==> stock(res, k) <= caps[k]
}

proof fn lemma_debug_run_time(
    ts: Seq<Transformer>,
    caps: Stocks,
    time: u64,
    res: Stocks,
    states: RunStates,
    target: u64,
    tick_len: u64,
)
    requires
        debug_run(ts, caps, time, res, states, target, tick_len) is Some,
    ensures
        ({
            let o = debug_run(ts, caps, time, res, states, target, tick_len)->0;
            &&& o.time >= time
            &&& time <= target ==> o.time <= target
            &&& o.stop is None ==> o.time == if time <= target {
                target
            } else {
                time
            }
            &&& time >= target ==> o.resources == res && o.states == states && o.stop is None
        }),
    decreases target - time,
{
    if time < target {
        let next: u64 = if time + tick_len < target {
            (time + tick_len) as u64
        } else {
            target
        };
        let (r, st, stop) = step_line(ts, caps, res, states, (next - time) as nat, 0)->0;
        if stop is None {
            lemma_debug_run_time(ts, caps, next, r, st, target, tick_len);
        }
    }
}

/// A query answers for a time no earlier than the base state and no later
/// than the target; it falls short of the target only when it reports why
/// the line stopped. In debug-tick mode a query for the base state's own
/// time gives back the base state.
pub proof fn lemma_query_stays_within_target(e: SimulationEngine, target: u64)
    requires
        target >= e.base_state.time,
        e.outcome_at(target) is Some,
    ensures
        e.outcome_at(target)->0.time >= e.base_state.time,
        e.outcome_at(target)->0.time <= target,
        e.outcome_at(target)->0.stop is None ==> e.outcome_at(target)->0.time == target,
        (e.mode is DebugTick && target == e.base_state.time) ==> {
            &&& e.outcome_at(target)->0.resources == e.base_state.resources@
            &&& e.outcome_at(target)->0.states == e.base_state.transformer_states@
        },
{
    let b = e.base_state;
    match e.mode {
        SimMode::DebugTick(config) => {
            lemma_debug_run_time(
                b.transformers@,
                b.capacities@,
                b.time,
                b.resources@,
                b.transformer_states@,
                target,
                config.tick_duration_secs,
            );
        },
        _ => {
            lemma_event_not_before(
                b.transformers@,
                b.time,
                b.resources@,
                b.capacities@,
                b.transformer_states@,
                0,
                None,
            );
        },
    }
}

proof fn lemma_tick_within(t: Transformer, caps: Stocks, res: Stocks, s: TransformerState)
    requires
        within_capacities(res, caps),
        tick(t, capacity_of(caps, t.output_id@), res, s) is Some,
    ensures
        ({
            let q = tick(t, capacity_of(caps, t.output_id@), res, s)->0;
            within_capacities(q.0, caps)
        }),
{
    let limit = capacity_of(caps, t.output_id@);
    let q = tick(t, limit, res, s)->0;
    let r = q.0;
    assert forall|k: Seq<char>| #[trigger] caps.contains_key(k) implies stock(r, k) <= caps[k] by {
        if k == t.output_id@ {
            assert(limit == caps[k]);
        }
    }
}

proof fn lemma_run_within(
    t: Transformer,
    caps: Stocks,
    res: Stocks,
    s: TransformerState,
    n: nat,
)
    requires
        within_capacities(res, caps),
        run_ticks(t, capacity_of(caps, t.output_id@), res, s, n) is Some,
    ensures
        ({
            let q = run_ticks(t, capacity_of(caps, t.output_id@), res, s, n)->0;
            within_capacities(q.0, caps)
        }),
    decreases n,
{
    if n > 0 {
        let limit = capacity_of(caps, t.output_id@);
        lemma_tick_within(t, caps, res, s);
        let (r, s2, stop) = tick(t, limit, res, s)->0;
        if stop is None {
            lemma_run_within(t, caps, r, s2, (n - 1) as nat);
        }
    }
}

proof fn lemma_step_within(
    ts: Seq<Transformer>,
    caps: Stocks,
    res: Stocks,
    states: RunStates,
    delta: nat,
    i: nat,
)
    requires
        within_capacities(res, caps),
        step_line(ts, caps, res, states, delta, i) is Some,
    ensures
        ({
            let q = step_line(ts, caps, res, states, delta, i)->0;
            within_capacities(q.0, caps)
        }),
    decreases ts.len() - i,
{
    if i < ts.len() {
        let t = ts[i as int];
        let s = state_of(states, t.id@);
        lemma_run_within(t, caps, res, s, delta);
        let (r, s2, stop) = run_ticks(t, capacity_of(caps, t.output_id@), res, s, delta)->0;
        if stop is None {
            lemma_step_within(ts, caps, r, states.insert(t.id@, s2), delta, i + 1);
        }
    }
}

proof fn lemma_debug_within(
    ts: Seq<Transformer>,
    caps: Stocks,
    time: u64,
    res: Stocks,
    states: RunStates,
    target: u64,
    tick_len: u64,
)
    requires
        within_capacities(res, caps),
        debug_run(ts, caps, time, res, states, target, tick_len) is Some,
    ensures
        within_capacities(debug_run(ts, caps, time, res, states, target, tick_len)->0.resources, caps),
    decreases target - time,
{
    if time < target {
        let next: u64 = if time + tick_len < target {
            (time + tick_len) as u64
        } else {
            target
        };
        lemma_step_within(ts, caps, res, states, (next - time) as nat, 0);
        let (r, st, stop) = step_line(ts, caps, res, states, (next - time) as nat, 0)->0;
        if stop is None {
            lemma_debug_within(ts, caps, next, r, st, target, tick_len);
        }
    }
}

/// In debug-tick mode no stock passes its capacity: when the base state's
/// stocks are within the capacities, so are those of every answered query.
pub proof fn lemma_debug_respects_capacities(e: SimulationEngine, target: u64)
    requires
        e.mode is DebugTick,
        within_capacities(e.base_state.resources@, e.base_state.capacities@),
        target >= e.base_state.time,
        e.outcome_at(target) is Some,
    ensures
        within_capacities(e.outcome_at(target)->0.resources, e.base_state.capacities@),
{
    let b = e.base_state;
    match e.mode {
        SimMode::DebugTick(config) => {
            lemma_debug_within(
                b.transformers@,
                b.capacities@,
                b.time,
                b.resources@,
                b.transformer_states@,
                target,
                config.tick_duration_secs,
            );
        },
        _ => {},
    }
}

/// In debug-tick mode, committing the state at `target` and querying
/// `target` again gives the committed state back, when the line did not stop
/// on the way.
pub proof fn lemma_requery_after_commit(e: SimulationEngine, committed: SimulationEngine, target: u64)
    requires
        e.mode is DebugTick,
        target >= e.base_state.time,
        e.outcome_at(target) is Some,
        e.outcome_at(target)->0.stop is None,
        committed.mode == e.mode,
        committed.base_state.transformers == e.base_state.transformers,
        committed.base_state.capacities == e.base_state.capacities,
        committed.base_state.time == e.outcome_at(target)->0.time,
        committed.base_state.resources@ == e.outcome_at(target)->0.resources,
        committed.base_state.transformer_states@ == e.outcome_at(target)->0.states,
    ensures
        committed.outcome_at(target) == e.outcome_at(target),
{
    lemma_query_stays_within_target(e, target);
}

proof fn lemma_earliest_fold(
    ts: Seq<Transformer>,
    time: u64,
    res: Stocks,
    caps: Stocks,
    states: RunStates,
    i: nat,
    acc: Option<PredictedEvent>,
)
    requires
        i <= ts.len(),
        earliest_event(ts, time, res, caps, states, i, acc) is Some,
    ensures
        ({
            let r = earliest_event(ts, time, res, caps, states, i, acc)->0;
            &&& (r is None <==> (acc is None && i == ts.len()))
            &&& forall|j: int|
                i <= j < ts.len() ==> r->0.time <= #[trigger] transformer_event(
                    ts[j],
                    time,
                    res,
                    caps,
                    states,
                )->0.time
            &&& acc matches Some(a) ==> r->0.time <= a.time
            &&& r matches Some(e) ==> (r == acc || exists|j: int|
                i <= j < ts.len() && transformer_event(ts[j], time, res, caps, states) == Some(e))
        }),
    decreases ts.len() - i,
{
    if i < ts.len() {
        let ev = transformer_event(ts[i as int], time, res, caps, states)->0;
        let acc2 = match acc {
            Some(cur) => if ev.time < cur.time {
                Some(ev)
            } else {
                acc
            },
            None => Some(ev),
        };
        lemma_earliest_fold(ts, time, res, caps, states, i + 1, acc2);
    }
}

/// The predicted stop of the line is the earliest of its transformers'
/// stops, and it is one of them; a line without transformers never stops.
pub proof fn lemma_next_event_is_earliest(e: SimulationEngine)
    requires
        earliest_event(
            e.base_state.transformers@,
            e.base_state.time,
            e.base_state.resources@,
            e.base_state.capacities@,
            e.base_state.transformer_states@,
            0,
            None,
        ) is Some,
    ensures
        ({
            let b = e.base_state;
            let ts = b.transformers@;
            let r = earliest_event(
                ts,
                b.time,
                b.resources@,
                b.capacities@,
                b.transformer_states@,
                0,
                None,
            )->0;
            &&& (r is None <==> ts.len() == 0)
            &&& forall|j: int|
                0 <= j < ts.len() ==> r->0.time <= #[trigger] transformer_event(
                    ts[j],
                    b.time,
                    b.resources@,
                    b.capacities@,
                    b.transformer_states@,
                )->0.time
            &&& r matches Some(ev) ==> exists|j: int|
                0 <= j < ts.len() && transformer_event(
                    ts[j],
                    b.time,
                    b.resources@,
                    b.capacities@,
                    b.transformer_states@,
                ) == Some(ev)
        }),
{
    let b = e.base_state;
    lemma_earliest_fold(
        b.transformers@,
        b.time,
        b.resources@,
        b.capacities@,
        b.transformer_states@,
        0,
        None,
    );
}

proof fn lemma_predict_transformer_within(
    t: Transformer,
    actual: u64,
    res: Stocks,
    caps: Stocks,
    states: RunStates,
)
    requires
        within_capacities(res, caps),
        predict_transformer(t, actual, res, states) is Some,
        caps.contains_key(t.output_id@) ==> (state_of(states, t.id@).progress_secs + actual) / (
        t.duration_secs as int) * t.output_qty + stock(res, t.output_id@) <= caps[t.output_id@],
        (state_of(states, t.id@).progress_secs + actual) / (t.duration_secs as int) <= u32::MAX,
    ensures
        ({
            let q = predict_transformer(t, actual, res, states)->0;
            &&& within_capacities(q.0, caps)
            &&& forall|k: Seq<char>| k != t.output_id@ ==> #[trigger] stock(q.0, k) <= stock(res, k)
        }),
{
    let s = state_of(states, t.id@);
    let total = (s.progress_secs + actual) as u64;
    let ops = (total / t.duration_secs) as u32;
    assert(ops == total / t.duration_secs);
    let q = predict_transformer(t, actual, res, states)->0;
    let r = q.0;
    if ops > 0 {
        let res1 = if res.contains_key(t.input_id@) {
            res.insert(
                t.input_id@,
                res[t.input_id@].saturating_sub((ops * t.input_qty) as u32),
            )
        } else {
            res
        };
        assert(forall|k: Seq<char>| #[trigger] stock(res1, k) <= stock(res, k));
        let cover = ops.saturating_sub(s.fuel_ops_left);
        let new_fuel: u32 = if cover > 0 {
            ceil_div(cover, t.fuel_ops)
        } else if s.fuel_ops_left == 0 {
            1
        } else {
            0
        };
        let res2 = if new_fuel > 0 && res1.contains_key(t.fuel_id@) {
            res1.insert(t.fuel_id@, res1[t.fuel_id@].saturating_sub(new_fuel))
        } else {
            res1
        };
        assert(forall|k: Seq<char>| #[trigger] stock(res2, k) <= stock(res, k)) by {
            assert forall|k: Seq<char>| #[trigger] stock(res2, k) <= stock(res, k) by {
                assert(stock(res2, k) <= stock(res1, k));
                assert(stock(res1, k) <= stock(res, k));
            }
        }
        assert forall|k: Seq<char>| #[trigger] caps.contains_key(k) implies stock(r, k)
            <= caps[k] by {
            assert(stock(res2, k) <= stock(res, k));
            if k == t.output_id@ {
                assert(stock(r, k) <= stock(res2, k) + ops * t.output_qty);
            }
        }
        assert forall|k: Seq<char>| k != t.output_id@ implies #[trigger] stock(r, k) <= stock(res, k) by {
            assert(stock(res2, k) <= stock(res, k));
        }
    }
}

/// Running `a` seconds and then `b` more is running `a + b` seconds.
pub proof fn lemma_run_split(t: Transformer, limit: u32, res: Stocks, s: TransformerState, a: nat, b: nat)
    ensures
        run_ticks(t, limit, res, s, a + b) == match run_ticks(t, limit, res, s, a) {
            Some((r, s2, None)) => run_ticks(t, limit, r, s2, b),
            other => other,
        },
    decreases a,
{
    if a > 0 {
        match tick(t, limit, res, s) {
            Some((r, s2, None)) => {
                lemma_run_split(t, limit, r, s2, (a - 1) as nat, b);
                assert((a + b - 1) as nat == ((a - 1) as nat + b) as nat);
            },
            _ => {},
        }
    }
}

/// What one transformer does when it runs alone for `n` seconds: its stocks,
/// its running state recorded under its id, and why it stopped.
pub open spec fn alone(
    t: Transformer,
    caps: Stocks,
    res: Stocks,
    states: RunStates,
    n: nat,
) -> Option<(Stocks, RunStates, Option<StopReason>)> {
    match run_ticks(t, capacity_of(caps, t.output_id@), res, state_of(states, t.id@), n) {
        Some((r, s, stop)) => Some((r, states.insert(t.id@, s), stop)),
        None => None,
    }
}

proof fn lemma_single_debug_run(
    ts: Seq<Transformer>,
    caps: Stocks,
    time: u64,
    res: Stocks,
    states: RunStates,
    target: u64,
    tick_len: u64,
)
    requires
        ts.len() == 1,
        time < target,
        debug_run(ts, caps, time, res, states, target, tick_len) is Some,
    ensures
        ({
            let o = debug_run(ts, caps, time, res, states, target, tick_len)->0;
            let a = alone(ts[0], caps, res, states, (target - time) as nat);
            let q = a->0;
            &&& a is Some
            &&& o.resources == q.0
            &&& o.states == q.1
            &&& o.stop == q.2
        }),
    decreases target - time,
{
    let t = ts[0];
    let limit = capacity_of(caps, t.output_id@);
    let next: u64 = if time + tick_len < target {
        (time + tick_len) as u64
    } else {
        target
    };
    let d = (next - time) as nat;
    let s0 = state_of(states, t.id@);
    let step = step_line(ts, caps, res, states, d, 0);
    let (r, s1, stop1) = run_ticks(t, limit, res, s0, d)->0;
    assert(step_line(ts, caps, r, states.insert(t.id@, s1), d, 1) == Some(
        (r, states.insert(t.id@, s1), None::<StopReason>),
    ));
    lemma_run_split(t, limit, res, s0, d, (target - next) as nat);
    assert(d + (target - next) as nat == (target - time) as nat);
    let st = states.insert(t.id@, s1);
    if stop1 is None {
        assert(step == Some((r, st, None::<StopReason>)));
    } else {
        assert(step == Some((r, st, stop1)));
    }
    let o = debug_run(ts, caps, time, res, states, target, tick_len)->0;
    let whole = run_ticks(t, limit, res, s0, (target - time) as nat);
    if stop1 is None && next < target {
        lemma_single_debug_run(ts, caps, next, r, st, target, tick_len);
        assert(state_of(st, t.id@) == s1);
        let rest = run_ticks(t, limit, r, s1, (target - next) as nat)->0;
        assert(whole == Some(rest));
        assert(st.insert(t.id@, rest.1) =~= states.insert(t.id@, rest.1));
        assert(o == debug_run(ts, caps, next, r, st, target, tick_len)->0);
    } else if stop1 is None {
        assert(run_ticks(t, limit, r, s1, 0) == Some((r, s1, None::<StopReason>)));
        assert(whole == Some((r, s1, None::<StopReason>)));
        assert(o.resources == r);
        assert(o.states == st);
        assert(o.stop is None);
    } else {
        assert(whole == Some((r, s1, stop1)));
        assert(o.resources == r);
        assert(o.states == st);
        assert(o.stop == stop1);
    }
}

/// In debug-tick mode, a line of one transformer computes what that
/// transformer does running alone from the base state to the target, second
/// by second: the stocks, running states and stop reason do not depend on
/// the tick length, only the reported time of a stop does.
pub proof fn lemma_single_debug_ignores_tick_length(e: SimulationEngine, target: u64)
    requires
        e.mode is DebugTick,
        e.base_state.transformers@.len() == 1,
        target > e.base_state.time,
        e.outcome_at(target) is Some,
    ensures
        ({
            let b = e.base_state;
            let o = e.outcome_at(target)->0;
            let a = alone(
                b.transformers@[0],
                b.capacities@,
                b.resources@,
                b.transformer_states@,
                (target - b.time) as nat,
            );
            let q = a->0;
            &&& a is Some
            &&& o.resources == q.0
            &&& o.states == q.1
            &&& o.stop == q.2
        }),
{
    let b = e.base_state;
    match e.mode {
        SimMode::DebugTick(config) => {
            lemma_single_debug_run(
                b.transformers@,
                b.capacities@,
                b.time,
                b.resources@,
                b.transformer_states@,
                target,
                config.tick_duration_secs,
            );
        },
        _ => {},
    }
}

/// One step of the line never fills a stock past its capacity: from any
/// stocks within the capacities that the step consults, it ends within them.
pub proof fn lemma_step_respects_capacities(
    ts: Seq<Transformer>,
    caps: Stocks,
    res: Stocks,
    states: RunStates,
    delta: nat,
)
    requires
        within_capacities(res, caps),
        step_line(ts, caps, res, states, delta, 0) is Some,
    ensures
        ({
            let q = step_line(ts, caps, res, states, delta, 0)->0;
            within_capacities(q.0, caps)
        }),
{
    lemma_step_within(ts, caps, res, states, delta, 0);
}

/// For a line of one transformer, a step of `a + b` seconds is a step of
/// `a` seconds followed by a step of `b` seconds, when the first does not
/// stop; when it stops, the longer step stops there too.
pub proof fn lemma_single_step_split(
    ts: Seq<Transformer>,
    caps: Stocks,
    res: Stocks,
    states: RunStates,
    a: nat,
    b: nat,
)
    requires
        ts.len() == 1,
    ensures
        step_line(ts, caps, res, states, a + b, 0) == match step_line(ts, caps, res, states, a, 0) {
            Some((r, st, None)) => step_line(ts, caps, r, st, b, 0),
            other => other,
        },
{
    let t = ts[0];
    let limit = capacity_of(caps, t.output_id@);
    let s0 = state_of(states, t.id@);
    lemma_run_split(t, limit, res, s0, a, b);
    match run_ticks(t, limit, res, s0, a) {
        Some((r, s1, None)) => {
            let st = states.insert(t.id@, s1);
            assert(state_of(st, t.id@) == s1);
            assert(step_line(ts, caps, r, st, b, 0) == match run_ticks(t, limit, r, s1, b) {
                Some((r2, s2, stop)) => Some((r2, st.insert(t.id@, s2), stop)),
                None => None,
            }) by {
                match run_ticks(t, limit, r, s1, b) {
                    Some((r2, s2, stop)) => {
                        assert(step_line(ts, caps, r2, st.insert(t.id@, s2), b, 1) == Some(
                            (r2, st.insert(t.id@, s2), None::<StopReason>),
                        ));
                    },
                    None => {},
                }
            }
            match run_ticks(t, limit, r, s1, b) {
                Some((r2, s2, stop)) => {
                    assert(st.insert(t.id@, s2) =~= states.insert(t.id@, s2));
                    assert(step_line(ts, caps, r2, states.insert(t.id@, s2), a + b, 1) == Some(
                        (r2, states.insert(t.id@, s2), None::<StopReason>),
                    ));
                },
                None => {},
            }
            assert(step_line(ts, caps, r, st, a, 1) == Some((r, st, None::<StopReason>)));
        },
        Some((r, s1, Some(reason))) => {},
        None => {},
    }
}

/// In the predictive and hybrid modes a query is the prediction, so
/// `state_at` (at or after the base time) and `predict_until` give the same
/// result.
pub proof fn lemma_predictive_query_is_prediction(e: SimulationEngine, target: u64)
    requires
        !(e.mode is DebugTick),
    ensures
        e.outcome_at(target) == prediction(
            e.base_state.transformers@,
            e.base_state.capacities@,
            e.base_state.time,
            e.base_state.resources@,
            e.base_state.transformer_states@,
            target,
        ),
{
}

/// Every running state in `states` can still advance a second.
pub open spec fn progress_bounded(states: RunStates) -> bool {
    forall|k: Seq<char>| #[trigger] states.contains_key(k) ==> states[k].progress_secs < u64::MAX
}

/// Every transformer of the line has fuel that lasts, and an output with a
/// capacity that leaves room for one more operation's output below `u32::MAX`.
pub open spec fn line_bounded(ts: Seq<Transformer>, caps: Stocks) -> bool {
    forall|i: int|
        0 <= i < ts.len() ==> {
            &&& caps.contains_key(#[trigger] ts[i].output_id@)
            &&& caps[ts[i].output_id@] + ts[i].output_qty <= u32::MAX
            &&& ts[i].fuel_ops > 0
        }
}

proof fn lemma_tick_defined(t: Transformer, caps: Stocks, res: Stocks, s: TransformerState)
    requires
        caps.contains_key(t.output_id@),
        caps[t.output_id@] + t.output_qty <= u32::MAX,
        t.fuel_ops > 0,
        within_capacities(res, caps),
        s.progress_secs < u64::MAX,
    ensures
        tick(t, capacity_of(caps, t.output_id@), res, s) is Some,
        ({
            let q = tick(t, capacity_of(caps, t.output_id@), res, s)->0;
            &&& within_capacities(q.0, caps)
            &&& q.1.progress_secs < u64::MAX
        }),
{
    let k = t.output_id@;
    assert(caps.contains_key(k));
    assert(stock(res, k) <= caps[k]);
    let refuel = s.fuel_ops_left == 0;
    if !(refuel && stock(res, t.fuel_id@) == 0) {
        let res1 = if refuel {
            res.insert(t.fuel_id@, (stock(res, t.fuel_id@) - 1) as u32)
        } else {
            res
        };
        assert(stock(res1, k) <= stock(res, k));
    }
    lemma_tick_within(t, caps, res, s);
}

proof fn lemma_run_defined(t: Transformer, caps: Stocks, res: Stocks, s: TransformerState, n: nat)
    requires
        caps.contains_key(t.output_id@),
        caps[t.output_id@] + t.output_qty <= u32::MAX,
        t.fuel_ops > 0,
        within_capacities(res, caps),
        s.progress_secs < u64::MAX,
    ensures
        run_ticks(t, capacity_of(caps, t.output_id@), res, s, n) is Some,
        ({
            let q = run_ticks(t, capacity_of(caps, t.output_id@), res, s, n)->0;
            &&& within_capacities(q.0, caps)
            &&& q.1.progress_secs < u64::MAX
        }),
    decreases n,
{
    if n > 0 {
        lemma_tick_defined(t, caps, res, s);
        let (r, s2, stop) = tick(t, capacity_of(caps, t.output_id@), res, s)->0;
        if stop is None {
            lemma_run_defined(t, caps, r, s2, (n - 1) as nat);
        }
    }
}

proof fn lemma_step_defined(
    ts: Seq<Transformer>,
    caps: Stocks,
    res: Stocks,
    states: RunStates,
    delta: nat,
    i: nat,
)
    requires
        line_bounded(ts, caps),
        within_capacities(res, caps),
        progress_bounded(states),
    ensures
        step_line(ts, caps, res, states, delta, i) is Some,
        ({
            let q = step_line(ts, caps, res, states, delta, i)->0;
            &&& within_capacities(q.0, caps)
            &&& progress_bounded(q.1)
        }),
    decreases ts.len() - i,
{
    if i < ts.len() {
        let t = ts[i as int];
        let s = state_of(states, t.id@);
        assert(caps.contains_key(ts[i as int].output_id@));
        lemma_run_defined(t, caps, res, s, delta);
        let (r, s2, stop) = run_ticks(t, capacity_of(caps, t.output_id@), res, s, delta)->0;
        let st = states.insert(t.id@, s2);
        assert(progress_bounded(st));
        if stop is None {
            lemma_step_defined(ts, caps, r, st, delta, i + 1);
        }
    }
}

proof fn lemma_debug_defined(
    ts: Seq<Transformer>,
    caps: Stocks,
    time: u64,
    res: Stocks,
    states: RunStates,
    target: u64,
    tick_len: u64,
)
    requires
        line_bounded(ts, caps),
        within_capacities(res, caps),
        progress_bounded(states),
        tick_len > 0,
        target + tick_len <= u64::MAX,
    ensures
        debug_run(ts, caps, time, res, states, target, tick_len) is Some,
    decreases target - time,
{
    if time < target {
        let next: u64 = if time + tick_len < target {
            (time + tick_len) as u64
        } else {
            target
        };
        lemma_step_defined(ts, caps, res, states, (next - time) as nat, 0);
        let (r, st, stop) = step_line(ts, caps, res, states, (next - time) as nat, 0)->0;
        if stop is None {
            lemma_debug_defined(ts, caps, next, r, st, target, tick_len);
        }
    }
}

/// A debug-tick query is answered when its arithmetic cannot overflow: the
/// tick is not empty and one tick past the target still fits in the time;
/// every transformer's fuel lasts and its output has a capacity with room
/// for one more operation below `u32::MAX`; the stocks are within their
/// capacities; and no running state is at the last second of the time range.
pub proof fn lemma_debug_answers(e: SimulationEngine, target: u64)
    requires
        e.mode matches SimMode::DebugTick(config) && config.tick_duration_secs > 0
            && target + config.tick_duration_secs <= u64::MAX,
        line_bounded(e.base_state.transformers@, e.base_state.capacities@),
        within_capacities(e.base_state.resources@, e.base_state.capacities@),
        progress_bounded(e.base_state.transformer_states@),
    ensures
        e.answers(target),
{
    let b = e.base_state;
    match e.mode {
        SimMode::DebugTick(config) => {
            lemma_debug_defined(
                b.transformers@,
                b.capacities@,
                b.time,
                b.resources@,
                b.transformer_states@,
                target,
                config.tick_duration_secs,
            );
        },
        _ => {},
    }
}

/// No two transformers of the line share an id or an output.
pub open spec fn outputs_distinct(ts: Seq<Transformer>) -> bool {
    forall|i: int, j: int|
        0 <= i < ts.len() && 0 <= j < ts.len() && i != j ==> #[trigger] ts[i].output_id@
            != #[trigger] ts[j].output_id@ && ts[i].id@ != ts[j].id@
}

proof fn lemma_events_defined(
    ts: Seq<Transformer>,
    time: u64,
    res: Stocks,
    caps: Stocks,
    states: RunStates,
    i: nat,
    acc: Option<PredictedEvent>,
)
    requires
        earliest_event(ts, time, res, caps, states, i, acc) is Some,
    ensures
        forall|j: int|
            i <= j < ts.len() ==> #[trigger] transformer_event(ts[j], time, res, caps, states) is Some,
    decreases ts.len() - i,
{
    if i < ts.len() {
        let ev = transformer_event(ts[i as int], time, res, caps, states)->0;
        let acc2 = match acc {
            Some(cur) => if ev.time < cur.time {
                Some(ev)
            } else {
                acc
            },
            None => Some(ev),
        };
        lemma_events_defined(ts, time, res, caps, states, i + 1, acc2);
    }
}

proof fn lemma_predict_line_within(
    ts: Seq<Transformer>,
    caps: Stocks,
    time: u64,
    res0: Stocks,
    states0: RunStates,
    actual: u64,
    res: Stocks,
    states: RunStates,
    i: nat,
)
    requires
        outputs_distinct(ts),
        within_capacities(res0, caps),
        within_capacities(res, caps),
        forall|j: int|
            i <= j < ts.len() ==> stock(res, #[trigger] ts[j].output_id@) <= stock(
                res0,
                ts[j].output_id@,
            ) && state_of(states, ts[j].id@) == state_of(states0, ts[j].id@),
        forall|j: int|
            i <= j < ts.len() ==> #[trigger] transformer_event(ts[j], time, res0, caps, states0)
                is Some && time + actual <= transformer_event(
                ts[j],
                time,
                res0,
                caps,
                states0,
            )->0.time,
        predict_line(ts, actual, res, states, i) is Some,
    ensures
        ({
            let q = predict_line(ts, actual, res, states, i)->0;
            within_capacities(q.0, caps)
        }),
    decreases ts.len() - i,
{
    if i < ts.len() {
        let t = ts[i as int];
        assert(transformer_event(ts[i as int], time, res0, caps, states0) is Some);
        let s = state_of(states0, t.id@);
        let out0 = stock(res0, t.output_id@);
        let space = capacity_of(caps, t.output_id@).saturating_sub(out0);
        let fuel = stock(res0, t.fuel_id@);
        let by_input = (stock(res0, t.input_id@) / t.input_qty) as u32;
        let by_fuel = (fuel * t.fuel_ops + s.fuel_ops_left) as u32;
        let by_output = (space / t.output_qty) as u32;
        let lim = min_u32(min_u32(by_input, by_fuel), by_output);
        let total: int = s.progress_secs + actual;
        let dur: int = t.duration_secs as int;
        assert(total <= lim * dur);
        assert(dur > 0) by {
            assert(predict_transformer(t, actual, res, states) is Some);
        }
        assert(total / dur <= lim) by (nonlinear_arith)
            requires
                total <= lim * dur,
                dur > 0,
                total >= 0,
                lim >= 0,
        ;
        assert(by_output * t.output_qty <= space) by (nonlinear_arith)
            requires
                by_output == space / t.output_qty,
                t.output_qty > 0,
                space >= 0,
        ;
        assert((total / dur) * t.output_qty <= by_output * t.output_qty) by (nonlinear_arith)
            requires
                total / dur <= lim,
                lim <= by_output,
                t.output_qty >= 0,
        ;
        assert(stock(res, t.output_id@) <= out0);
        lemma_predict_transformer_within(t, actual, res, caps, states);
        let (r, st) = predict_transformer(t, actual, res, states)->0;
        assert forall|j: int| i + 1 <= j < ts.len() implies stock(
            r,
            #[trigger] ts[j].output_id@,
        ) <= stock(res0, ts[j].output_id@) && state_of(st, ts[j].id@) == state_of(
            states0,
            ts[j].id@,
        ) by {
            assert(ts[j].output_id@ != ts[i as int].output_id@);
            assert(ts[j].id@ != ts[i as int].id@);
        }
        lemma_predict_line_within(ts, caps, time, res0, states0, actual, r, st, i + 1);
    }
}

/// In the predictive modes, for a line whose transformers have distinct ids
/// and distinct outputs, a prediction never fills a storage past its
/// capacity: when the base state's stocks are within the capacities, so are
/// the predicted ones. (With a shared output, each transformer sizes its
/// operations by the room it sees in the base state, and together they can
/// overfill it.)
pub proof fn lemma_prediction_respects_capacities(e: SimulationEngine, target: u64)
    requires
        !(e.mode is DebugTick),
        outputs_distinct(e.base_state.transformers@),
        within_capacities(e.base_state.resources@, e.base_state.capacities@),
        e.outcome_at(target) is Some,
    ensures
        within_capacities(e.outcome_at(target)->0.resources, e.base_state.capacities@),
{
    let b = e.base_state;
    let ts = b.transformers@;
    let time = b.time;
    let res = b.resources@;
    let caps = b.capacities@;
    let states = b.transformer_states@;
    let found = earliest_event(ts, time, res, caps, states, 0, None);
    assert(found is Some);
    lemma_events_defined(ts, time, res, caps, states, 0, None);
    lemma_earliest_fold(ts, time, res, caps, states, 0, None);
    super::predict::lemma_event_not_before(ts, time, res, caps, states, 0, None);
    let actual: u64 = match found->0 {
        Some(ev) => if ev.time <= target {
            (ev.time - time) as u64
        } else {
            target.saturating_sub(time)
        },
        None => target.saturating_sub(time),
    };
    assert forall|j: int| 0 <= j < ts.len() implies #[trigger] transformer_event(
        ts[j],
        time,
        res,
        caps,
        states,
    ) is Some && time + actual <= transformer_event(ts[j], time, res, caps, states)->0.time by {
        assert(found->0 is Some);
    }
    lemma_predict_line_within(ts, caps, time, res, states, actual, res, states, 0);
}

} // verus!
