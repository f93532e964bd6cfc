//! What the line's operations take and make, and why the line stops: laws
//! stated in plain arithmetic over the stocks before and after.
use super::spec::{
    capacity_of, ceil_div, debug_run, earliest_event, predict_line, predict_transformer, prediction,
    run_ticks, state_of, step_line, stock, tick, transformer_event, RunStates, Stocks,
};
use super::types::{PredictedEvent, StopReason, Transformer, TransformerState};
use vstd::prelude::*;

verus! {

/// The input, fuel and output of `t` are three different resources.
pub open spec fn distinct_resources(t: Transformer) -> bool {
    &&& t.input_id@ != t.fuel_id@
    &&& t.input_id@ != t.output_id@
    &&& t.fuel_id@ != t.output_id@
}

/// What a stop of `t` for `reason` says of the stocks `r` and the running
/// states `st` where it stopped: no fuel burns and none is left; the input
/// cannot cover an operation; or one more operation's output would pass the
/// capacity.
pub open spec fn stop_holds(
    t: Transformer,
    caps: Stocks,
    r: Stocks,
    st: RunStates,
    reason: StopReason,
) -> bool {
    match reason {
        StopReason::FuelEmpty => state_of(st, t.id@).fuel_ops_left == 0 && stock(r, t.fuel_id@)
            == 0,
        StopReason::InputEmpty => stock(r, t.input_id@) < t.input_qty,
        StopReason::OutputFull => stock(r, t.output_id@) + t.output_qty > capacity_of(
            caps,
            t.output_id@,
        ),
    }
}

/// Some transformer of the line stopped for `reason` at `r` and `st`.
pub open spec fn stop_explained(
    ts: Seq<Transformer>,
    caps: Stocks,
    r: Stocks,
    st: RunStates,
    reason: StopReason,
) -> bool {
    exists|j: int| 0 <= j < ts.len() && #[trigger] stop_holds(ts[j], caps, r, st, reason)
}

proof fn lemma_run_stop(
    t: Transformer,
    limit: u32,
    res: Stocks,
    s: TransformerState,
    n: nat,
)
    requires
        run_ticks(t, limit, res, s, n) is Some,
    ensures
        ({
            let (r, s2, stop) = run_ticks(t, limit, res, s, n)->0;
            match stop {
                Some(StopReason::FuelEmpty) => s2.fuel_ops_left == 0 && stock(r, t.fuel_id@) == 0,
                Some(StopReason::InputEmpty) => stock(r, t.input_id@) < t.input_qty,
                Some(StopReason::OutputFull) => stock(r, t.output_id@) + t.output_qty > limit,
                None => true,
            }
        }),
    decreases n,
{
    if n > 0 {
        match tick(t, limit, res, s) {
            Some((r, s2, stop)) => {
                if stop is None {
                    lemma_run_stop(t, limit, r, s2, (n - 1) as nat);
                }
            },
            None => {},
        }
    }
}

proof fn lemma_step_stop(
    ts: Seq<Transformer>,
    caps: Stocks,
    res: Stocks,
    states: RunStates,
    delta: nat,
    i: nat,
)
    requires
        step_line(ts, caps, res, states, delta, i) is Some,
    ensures
        ({
            let (r, st, stop) = step_line(ts, caps, res, states, delta, i)->0;
            stop matches Some(reason) ==> stop_explained(ts, caps, r, st, reason)
        }),
    decreases ts.len() - i,
{
    if i < ts.len() {
        let t = ts[i as int];
        let limit = capacity_of(caps, t.output_id@);
        lemma_run_stop(t, limit, res, state_of(states, t.id@), delta);
        match run_ticks(t, limit, res, state_of(states, t.id@), delta) {
            Some((r, s, stop)) => {
                let st = states.insert(t.id@, s);
                if stop is Some {
                    assert(state_of(st, t.id@) == s);
                    assert(stop_holds(ts[i as int], caps, r, st, stop->0));
                } else {
                    lemma_step_stop(ts, caps, r, st, delta, i + 1);
                }
            },
            None => {},
        }
    }
}

/// Why a step of the line stopped is true of where it stopped: some
/// transformer has no fuel burning and none in stock (`FuelEmpty`), too
/// little input for an operation (`InputEmpty`), or no room for one more
/// operation's output (`OutputFull`).
pub proof fn lemma_step_stop_reason(
    ts: Seq<Transformer>,
    caps: Stocks,
    res: Stocks,
    states: RunStates,
    delta: nat,
)
    requires
        step_line(ts, caps, res, states, delta, 0) is Some,
    ensures
        ({
            let (r, st, stop) = step_line(ts, caps, res, states, delta, 0)->0;
            stop matches Some(reason) ==> stop_explained(ts, caps, r, st, reason)
        }),
{
    lemma_step_stop(ts, caps, res, states, delta, 0);
}

/// Why a debug-tick run stopped is true of the state it reports: in
/// particular it reports `FuelEmpty` only where a transformer has no fuel
/// burning and its fuel stock is zero.
pub proof fn lemma_debug_stop_reason(
    ts: Seq<Transformer>,
    caps: Stocks,
    time: u64,
    res: Stocks,
    states: RunStates,
    target: u64,
    tick_len: u64,
)
    requires
        debug_run(ts, caps, time, res, states, target, tick_len) is Some,
    ensures
        ({
            let o = debug_run(ts, caps, time, res, states, target, tick_len)->0;
            o.stop matches Some(reason) ==> stop_explained(ts, caps, o.resources, o.states, reason)
        }),
    decreases target - time,
{
    if time < target && tick_len != 0 && time + tick_len <= u64::MAX {
        let next: u64 = if time + tick_len < target {
            (time + tick_len) as u64
        } else {
            target
        };
        lemma_step_stop(ts, caps, res, states, (next - time) as nat, 0);
        match step_line(ts, caps, res, states, (next - time) as nat, 0) {
            Some((r, st, stop)) => {
                if stop is None {
                    lemma_debug_stop_reason(ts, caps, next, r, st, target, tick_len);
                }
            },
            None => {},
        }
    }
}

/// The operations' worth of fuel that `t` has in the stocks `res` with the
/// running state `s`: its fuel stock times the operations a unit runs, and
/// what still burns.
pub open spec fn worth_of(t: Transformer, res: Stocks, s: TransformerState) -> int {
    stock(res, t.fuel_id@) * t.fuel_ops + s.fuel_ops_left
}

proof fn lemma_tick_takes_input(t: Transformer, limit: u32, res: Stocks, s: TransformerState) -> (k: nat)
    requires
        distinct_resources(t),
        tick(t, limit, res, s) is Some,
    ensures
        k <= 1,
        ({
            let (r, s2, stop) = tick(t, limit, res, s)->0;
            &&& stock(res, t.input_id@) == stock(r, t.input_id@) + k * t.input_qty
            &&& stock(r, t.output_id@) == stock(res, t.output_id@) + k * t.output_qty
            &&& worth_of(t, res, s) == worth_of(t, r, s2) + k
        }),
{
    let f = stock(res, t.fuel_id@) as int;
    let o = t.fuel_ops as int;
    assert((f - 1) * o + o == f * o) by (nonlinear_arith);
    let refuel = s.fuel_ops_left == 0;
    if refuel && stock(res, t.fuel_id@) == 0 {
        0
    } else {
        let res1 = if refuel {
            res.insert(t.fuel_id@, (stock(res, t.fuel_id@) - 1) as u32)
        } else {
            res
        };
        let s1 = if refuel {
            TransformerState { progress_secs: s.progress_secs, fuel_ops_left: t.fuel_ops }
        } else {
            s
        };
        assert(worth_of(t, res1, s1) == worth_of(t, res, s));
        if stock(res1, t.input_id@) < t.input_qty || stock(res1, t.output_id@) + t.output_qty
            > limit || s1.progress_secs == u64::MAX || s1.progress_secs + 1 < t.duration_secs {
            0
        } else {
            1
        }
    }
}

/// The operations that `n` seconds of `t` complete: the input drops by
/// `k * input_qty`, the output grows by `k * output_qty`, and the fuel's
/// worth in operations drops by `k`.
proof fn lemma_run_takes_input(
    t: Transformer,
    limit: u32,
    res: Stocks,
    s: TransformerState,
    n: nat,
) -> (k: nat)
    requires
        distinct_resources(t),
        run_ticks(t, limit, res, s, n) is Some,
    ensures
        ({
            let (r, s2, stop) = run_ticks(t, limit, res, s, n)->0;
            &&& stock(res, t.input_id@) == stock(r, t.input_id@) + k * t.input_qty
            &&& stock(r, t.output_id@) == stock(res, t.output_id@) + k * t.output_qty
            &&& worth_of(t, res, s) == worth_of(t, r, s2) + k
        }),
    decreases n,
{
    if n == 0 {
        0
    } else {
        let k1 = lemma_tick_takes_input(t, limit, res, s);
        let (r1, s1, stop) = tick(t, limit, res, s)->0;
        if stop is Some {
            k1
        } else {
            let k2 = lemma_run_takes_input(t, limit, r1, s1, (n - 1) as nat);
            let q = t.input_qty as int;
            let p = t.output_qty as int;
            assert((k1 + k2) * q == k1 * q + k2 * q) by (nonlinear_arith);
            assert((k1 + k2) * p == k1 * p + k2 * p) by (nonlinear_arith);
            k1 + k2
        }
    }
}

/// A step of a one-transformer line takes `input_qty` of the input for each
/// operation it completes: it returns the number `k` of operations, and the
/// input has dropped by `k * input_qty` while the output grew by
/// `k * output_qty` and the fuel's worth in operations (stock times
/// operations a unit, plus what still burns) dropped by `k`.
pub proof fn lemma_step_takes_input(
    ts: Seq<Transformer>,
    caps: Stocks,
    res: Stocks,
    states: RunStates,
    delta: nat,
) -> (k: nat)
    requires
        ts.len() == 1,
        distinct_resources(ts[0]),
        step_line(ts, caps, res, states, delta, 0) is Some,
    ensures
        ({
            let t = ts[0];
            let (r, st, stop) = step_line(ts, caps, res, states, delta, 0)->0;
            &&& stock(res, t.input_id@) == stock(r, t.input_id@) + k * t.input_qty
            &&& stock(r, t.output_id@) == stock(res, t.output_id@) + k * t.output_qty
            &&& fuel_worth(t, res, states) == fuel_worth(t, r, st) + k
        }),
{
    let t = ts[0];
    let limit = capacity_of(caps, t.output_id@);
    let k = lemma_run_takes_input(t, limit, res, state_of(states, t.id@), delta);
    let (r, s, stop) = run_ticks(t, limit, res, state_of(states, t.id@), delta)->0;
    assert(step_line(ts, caps, r, states.insert(t.id@, s), delta, 1) == Some(
        (r, states.insert(t.id@, s), None::<StopReason>),
    ));
    assert(state_of(states.insert(t.id@, s), t.id@) == s);
    k
}

/// A debug-tick run of a one-transformer line takes `input_qty` of the
/// input for each operation it completes: it returns the number `k` of
/// operations, and the input has dropped by `k * input_qty` while the output
/// grew by `k * output_qty` and the fuel's worth in operations dropped by `k`.
pub proof fn lemma_debug_takes_input(
    ts: Seq<Transformer>,
    caps: Stocks,
    time: u64,
    res: Stocks,
    states: RunStates,
    target: u64,
    tick_len: u64,
) -> (k: nat)
    requires
        ts.len() == 1,
        distinct_resources(ts[0]),
        debug_run(ts, caps, time, res, states, target, tick_len) is Some,
    ensures
        ({
            let t = ts[0];
            let o = debug_run(ts, caps, time, res, states, target, tick_len)->0;
            &&& stock(res, t.input_id@) == stock(o.resources, t.input_id@) + k * t.input_qty
            &&& stock(o.resources, t.output_id@) == stock(res, t.output_id@) + k * t.output_qty
            &&& fuel_worth(t, res, states) == fuel_worth(t, o.resources, o.states) + k
        }),
    decreases target - time,
{
    if time >= target {
        0
    } else {
        let next: u64 = if time + tick_len < target {
            (time + tick_len) as u64
        } else {
            target
        };
        let k1 = lemma_step_takes_input(ts, caps, res, states, (next - time) as nat);
        let (r, st, stop) = step_line(ts, caps, res, states, (next - time) as nat, 0)->0;
        if stop is Some {
            k1
        } else {
            let k2 = lemma_debug_takes_input(ts, caps, next, r, st, target, tick_len);
            let t = ts[0];
            let q = t.input_qty as int;
            let p = t.output_qty as int;
            assert((k1 + k2) * q == k1 * q + k2 * q) by (nonlinear_arith);
            assert((k1 + k2) * p == k1 * p + k2 * p) by (nonlinear_arith);
            k1 + k2
        }
    }
}

/// The output room of `t`: how far its stock is below its capacity.
pub open spec fn room(t: Transformer, res: Stocks, caps: Stocks) -> int {
    if capacity_of(caps, t.output_id@) >= stock(res, t.output_id@) {
        capacity_of(caps, t.output_id@) - stock(res, t.output_id@)
    } else {
        0
    }
}

/// The operations' worth of fuel that `t` has: its fuel stock times the
/// operations a unit runs, and what still burns.
pub open spec fn fuel_worth(t: Transformer, res: Stocks, states: RunStates) -> int {
    stock(res, t.fuel_id@) * t.fuel_ops + state_of(states, t.id@).fuel_ops_left
}

/// An event at `when`, seen from `time`, comes no later than the time at
/// which `t` can no longer cover an operation from its input, from its fuel,
/// or from its output room (each counted in whole operations of
/// `duration_secs`, less the progress already made).
pub open spec fn event_within(
    t: Transformer,
    time: u64,
    res: Stocks,
    caps: Stocks,
    states: RunStates,
    when: u64,
) -> bool {
    let p = state_of(states, t.id@).progress_secs;
    &&& when + p <= time + t.duration_secs * (stock(res, t.input_id@) / t.input_qty)
    &&& when + p <= time + t.duration_secs * fuel_worth(t, res, states)
    &&& when + p <= time + t.duration_secs * (room(t, res, caps) / t.output_qty as int)
}

/// The event `ev` is the time at which the resource that its reason names
/// runs out for `t`: the input, the fuel or the output room.
pub open spec fn event_explained(
    t: Transformer,
    time: u64,
    res: Stocks,
    caps: Stocks,
    states: RunStates,
    ev: PredictedEvent,
) -> bool {
    let p = state_of(states, t.id@).progress_secs;
    match ev.reason {
        StopReason::InputEmpty => ev.time + p == time + t.duration_secs * (stock(res, t.input_id@)
            / t.input_qty),
        StopReason::FuelEmpty => ev.time + p == time + t.duration_secs * fuel_worth(
            t,
            res,
            states,
        ),
        StopReason::OutputFull => ev.time + p == time + t.duration_secs * (room(t, res, caps)
            / t.output_qty as int),
    }
}

proof fn lemma_transformer_event_bounds(
    t: Transformer,
    time: u64,
    res: Stocks,
    caps: Stocks,
    states: RunStates,
)
    requires
        transformer_event(t, time, res, caps, states) is Some,
    ensures
        t.input_qty > 0,
        t.output_qty > 0,
        event_within(t, time, res, caps, states, transformer_event(t, time, res, caps, states)->0.time),
        event_explained(t, time, res, caps, states, transformer_event(t, time, res, caps, states)->0),
{
    let s = state_of(states, t.id@);
    let input = stock(res, t.input_id@);
    let fuel = stock(res, t.fuel_id@);
    let out = stock(res, t.output_id@);
    let space = capacity_of(caps, t.output_id@).saturating_sub(out);
    let by_input = (input / t.input_qty) as u32;
    let by_fuel = (fuel * t.fuel_ops + s.fuel_ops_left) as u32;
    let by_output = (space / t.output_qty) as u32;
    assert(space as int == room(t, res, caps));
    assert(by_input as int == input / t.input_qty);
    assert(by_output as int == room(t, res, caps) / t.output_qty as int);
    assert(by_fuel as int == fuel_worth(t, res, states));
    let lim = super::spec::min_u32(super::spec::min_u32(by_input, by_fuel), by_output);
    let d = t.duration_secs as int;
    assert(lim * d <= by_input * d) by (nonlinear_arith)
        requires
            lim <= by_input,
            d >= 0,
    ;
    assert(lim * d <= by_fuel * d) by (nonlinear_arith)
        requires
            lim <= by_fuel,
            d >= 0,
    ;
    assert(lim * d <= by_output * d) by (nonlinear_arith)
        requires
            lim <= by_output,
            d >= 0,
    ;
    assert(by_input * d == d * by_input) by (nonlinear_arith);
    assert(by_fuel * d == d * by_fuel) by (nonlinear_arith);
    assert(by_output * d == d * by_output) by (nonlinear_arith);
}

proof fn lemma_earliest_bounds(
    ts: Seq<Transformer>,
    time: u64,
    res: Stocks,
    caps: Stocks,
    states: RunStates,
    i: nat,
    acc: Option<PredictedEvent>,
)
    requires
        i <= ts.len(),
        earliest_event(ts, time, res, caps, states, i, acc) is Some,
        acc is None ==> i == 0,
        acc matches Some(a) ==> (forall|j: int|
            0 <= j < i ==> #[trigger] event_within(ts[j], time, res, caps, states, a.time)),
        acc matches Some(a) ==> (exists|j: int|
            0 <= j < i && #[trigger] event_explained(ts[j], time, res, caps, states, a)),
    ensures
        match earliest_event(ts, time, res, caps, states, i, acc)->0 {
            Some(ev) => (forall|j: int|
                0 <= j < ts.len() ==> #[trigger] event_within(ts[j], time, res, caps, states, ev.time))
                && (exists|j: int|
                0 <= j < ts.len() && #[trigger] event_explained(ts[j], time, res, caps, states, ev)),
            None => ts.len() == 0,
        },
    decreases ts.len() - i,
{
    if i < ts.len() {
        let t = ts[i as int];
        lemma_transformer_event_bounds(t, time, res, caps, states);
        let ev = transformer_event(t, time, res, caps, states)->0;
        let acc2 = match acc {
            Some(cur) => if ev.time < cur.time {
                Some(ev)
            } else {
                acc
            },
            None => Some(ev),
        };
        let a2 = acc2->0;
        assert forall|j: int| 0 <= j < i + 1 implies #[trigger] event_within(
            ts[j],
            time,
            res,
            caps,
            states,
            a2.time,
        ) by {
            if j < i {
                let a = acc->0;
                assert(event_within(ts[j], time, res, caps, states, a.time));
            }
        }
        if acc2 == Some(ev) {
            assert(event_explained(ts[i as int], time, res, caps, states, a2));
        }
        lemma_earliest_bounds(ts, time, res, caps, states, i + 1, acc2);
    }
}

/// The predicted stop of the line comes no later than the time at which any
/// of its transformers can no longer cover an operation from its input, its
/// fuel or its output room; and it is the time at which the resource that its
/// reason names runs out for one of them.
pub proof fn lemma_next_event_bounds(
    ts: Seq<Transformer>,
    time: u64,
    res: Stocks,
    caps: Stocks,
    states: RunStates,
)
    requires
        earliest_event(ts, time, res, caps, states, 0, None) is Some,
    ensures
        match earliest_event(ts, time, res, caps, states, 0, None)->0 {
            Some(ev) => (forall|j: int|
                0 <= j < ts.len() ==> #[trigger] event_within(ts[j], time, res, caps, states, ev.time))
                && (exists|j: int|
                0 <= j < ts.len() && #[trigger] event_explained(ts[j], time, res, caps, states, ev)),
            None => ts.len() == 0,
        },
{
    lemma_earliest_bounds(ts, time, res, caps, states, 0, None);
}

/// `n` operations' worth of `qty` taken from `have`, down to zero at least.
pub open spec fn taken_down(have: u32, n: int, qty: u32) -> int {
    if have >= n * qty {
        have - n * qty
    } else {
        0
    }
}

/// `n` operations' worth of `qty` added to `have`, up to `u32::MAX` at most.
pub open spec fn added_up(have: u32, n: int, qty: u32) -> int {
    if have + n * qty <= u32::MAX {
        have + n * qty
    } else {
        u32::MAX as int
    }
}

/// `actual` seconds of `t` in closed form complete
/// `n = (progress_secs + actual) / duration_secs` operations: they take
/// `n * input_qty` of the input (down to zero), make `n * output_qty` of the
/// output (up to `u32::MAX`), and leave the remainder as progress.
pub proof fn lemma_predicted_operations(
    t: Transformer,
    actual: u64,
    res: Stocks,
    states: RunStates,
)
    requires
        distinct_resources(t),
        predict_transformer(t, actual, res, states) is Some,
        (state_of(states, t.id@).progress_secs + actual) / (t.duration_secs as int) <= u32::MAX,
    ensures
        ({
            let total = state_of(states, t.id@).progress_secs + actual;
            let n = total / (t.duration_secs as int);
            let (r, st) = predict_transformer(t, actual, res, states)->0;
            &&& t.duration_secs > 0
            &&& stock(r, t.input_id@) == taken_down(stock(res, t.input_id@), n, t.input_qty)
            &&& stock(r, t.output_id@) == added_up(stock(res, t.output_id@), n, t.output_qty)
            &&& state_of(st, t.id@).progress_secs == total % (t.duration_secs as int)
        }),
{
    let s = state_of(states, t.id@);
    let total = (s.progress_secs + actual) as u64;
    let ops = (total / t.duration_secs) as u32;
    assert(ops as int == (total as int) / (t.duration_secs as int));
    let (r, st) = predict_transformer(t, actual, res, states)->0;
    assert(state_of(st, t.id@).progress_secs == total % t.duration_secs);
    if ops == 0 {
        assert(ops * t.input_qty == 0 && ops * t.output_qty == 0) by (nonlinear_arith)
            requires
                ops == 0,
        ;
    } else {
        let res1 = if res.contains_key(t.input_id@) {
            res.insert(t.input_id@, res[t.input_id@].saturating_sub((ops * t.input_qty) as u32))
        } else {
            res
        };
        assert(stock(res1, t.input_id@) == taken_down(stock(res, t.input_id@), ops as int, t.input_qty));
        assert(stock(res1, t.output_id@) == stock(res, t.output_id@));
        assert(stock(r, t.input_id@) == stock(res1, t.input_id@));
    }
}

/// `actual` seconds of `t` in closed form burn one operation's worth of fuel
/// for each of the `n = (progress_secs + actual) / duration_secs` operations
/// they complete, when the fuel (stock and what burns) covers them: the
/// fuel's worth in operations drops by exactly `n`.
pub proof fn lemma_predicted_fuel(t: Transformer, actual: u64, res: Stocks, states: RunStates)
    requires
        distinct_resources(t),
        predict_transformer(t, actual, res, states) is Some,
        (state_of(states, t.id@).progress_secs + actual) / (t.duration_secs as int) <= u32::MAX,
        (state_of(states, t.id@).progress_secs + actual) / (t.duration_secs as int) <= fuel_worth(
            t,
            res,
            states,
        ),
    ensures
        ({
            let n = (state_of(states, t.id@).progress_secs + actual) / (t.duration_secs as int);
            let (r, st) = predict_transformer(t, actual, res, states)->0;
            fuel_worth(t, r, st) == fuel_worth(t, res, states) - n
        }),
{
    let s = state_of(states, t.id@);
    let total = (s.progress_secs + actual) as u64;
    let ops = (total / t.duration_secs) as u32;
    assert(ops as int == (total as int) / (t.duration_secs as int));
    let (r, st) = predict_transformer(t, actual, res, states)->0;
    let fuel = stock(res, t.fuel_id@) as int;
    let f = t.fuel_ops as int;
    let left = s.fuel_ops_left as int;
    if ops > 0 {
        let res1 = if res.contains_key(t.input_id@) {
            res.insert(t.input_id@, res[t.input_id@].saturating_sub((ops * t.input_qty) as u32))
        } else {
            res
        };
        assert(stock(res1, t.fuel_id@) == fuel);
        let cover = ops.saturating_sub(s.fuel_ops_left);
        if cover > 0 {
            super::commit::lemma_ceil_bounds(cover as int, f);
            let nf = ceil_div(cover, t.fuel_ops) as int;
            assert(nf <= fuel) by (nonlinear_arith)
                requires
                    (nf - 1) * f < cover,
                    cover <= fuel * f,
                    f >= 1,
            ;
            assert((fuel - nf) * f + nf * f == fuel * f) by (nonlinear_arith);
            assert(stock(r, t.fuel_id@) == fuel - nf);
            assert(state_of(st, t.id@).fuel_ops_left == nf * f + left - ops);
        } else {
            assert(stock(r, t.fuel_id@) == fuel);
            assert(state_of(st, t.id@).fuel_ops_left == left - ops);
        }
    }
}

/// A prediction of a one-transformer line that ends `o.time - time` seconds
/// after the base time completes `n = (progress_secs + o.time - time) /
/// duration_secs` operations: the predicted input stock is the base stock
/// less `n * input_qty` (at least zero), the predicted output stock is the
/// base stock plus `n * output_qty` (at most `u32::MAX`), the fuel's worth
/// in operations drops by `n`, and what is left over is the progress.
pub proof fn lemma_prediction_takes_input(
    ts: Seq<Transformer>,
    caps: Stocks,
    time: u64,
    res: Stocks,
    states: RunStates,
    target: u64,
)
    requires
        ts.len() == 1,
        distinct_resources(ts[0]),
        prediction(ts, caps, time, res, states, target) is Some,
    ensures
        ({
            let t = ts[0];
            let o = prediction(ts, caps, time, res, states, target)->0;
            let n = (state_of(states, t.id@).progress_secs + (o.time - time)) / (
            t.duration_secs as int);
            &&& t.duration_secs > 0
            &&& time <= o.time
            &&& stock(o.resources, t.input_id@) == taken_down(stock(res, t.input_id@), n, t.input_qty)
            &&& stock(o.resources, t.output_id@) == added_up(
                stock(res, t.output_id@),
                n,
                t.output_qty,
            )
            &&& fuel_worth(t, o.resources, o.states) == fuel_worth(t, res, states) - n
            &&& state_of(o.states, t.id@).progress_secs == (state_of(states, t.id@).progress_secs
                + (o.time - time)) % (t.duration_secs as int)
        }),
{
    let t = ts[0];
    let ev = transformer_event(t, time, res, caps, states)->0;
    assert(earliest_event(ts, time, res, caps, states, 1, Some(ev)) == Some(Some(ev)));
    let s = state_of(states, t.id@);
    let input = stock(res, t.input_id@);
    let fuel = stock(res, t.fuel_id@);
    let out = stock(res, t.output_id@);
    let space = capacity_of(caps, t.output_id@).saturating_sub(out);
    let by_input = (input / t.input_qty) as u32;
    let by_fuel = (fuel * t.fuel_ops + s.fuel_ops_left) as u32;
    let by_output = (space / t.output_qty) as u32;
    let lim = super::spec::min_u32(super::spec::min_u32(by_input, by_fuel), by_output);
    let d = t.duration_secs as int;
    assert(ev.time + s.progress_secs == time + lim * d);
    let (actual, stop) = if ev.time <= target {
        ((ev.time - time) as u64, Some(ev.reason))
    } else {
        (target.saturating_sub(time), None::<StopReason>)
    };
    assert(s.progress_secs + actual <= lim * d);
    let (r, st) = predict_transformer(t, actual, res, states)->0;
    assert(predict_line(ts, actual, r, st, 1) == Some((r, st)));
    assert(d > 0) by {
        if d == 0 {
            assert(lim * d == 0) by (nonlinear_arith)
                requires
                    d == 0,
            ;
        }
    }
    let x = s.progress_secs + actual;
    assert(x / d <= lim) by (nonlinear_arith)
        requires
            0 <= x <= lim * d,
            d > 0,
            lim >= 0,
    {
        vstd::arithmetic::div_mod::lemma_div_is_ordered(x, lim * d, d);
        vstd::arithmetic::div_mod::lemma_div_multiples_vanish(lim as int, d);
    }
    assert(by_fuel as int == fuel_worth(t, res, states));
    lemma_predicted_operations(t, actual, res, states);
    lemma_predicted_fuel(t, actual, res, states);
}

} // verus!
