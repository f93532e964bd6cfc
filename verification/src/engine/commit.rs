//! Committing a predicted state: for a line of one transformer, the
//! prediction has a closed form, and committing an intermediate prediction
//! changes no later one.
use super::laws::lemma_predictive_query_is_prediction;
use super::spec::{
    capacity_of, ceil_div, earliest_event, predict_line, predict_transformer, prediction,
    state_of, stock, transformer_event, RunStates, SimOutcome, Stocks,
};
use super::types::{SimulationEngine, StopReason, Transformer, TransformerState};
use vstd::arithmetic::div_mod::{lemma_fundamental_div_mod, lemma_fundamental_div_mod_converse};
use vstd::prelude::*;

verus! {

/// A transformer whose input, fuel and output are distinct resources with
/// entries in the stocks, taking and making one unit an operation, whose
/// fuel and operations last, and whose output is within its capacity.
pub open spec fn simple_line(t: Transformer, res: Stocks, caps: Stocks) -> bool {
    &&& t.input_qty == 1
    &&& t.output_qty == 1
    &&& t.fuel_ops >= 1
    &&& t.duration_secs >= 1
    &&& t.input_id@ != t.fuel_id@
    &&& t.input_id@ != t.output_id@
    &&& t.fuel_id@ != t.output_id@
    &&& res.contains_key(t.input_id@)
    &&& res.contains_key(t.fuel_id@)
    &&& res.contains_key(t.output_id@)
    &&& stock(res, t.output_id@) <= capacity_of(caps, t.output_id@)
}

/// The operations that the input, the fuel (stock and burning) and the
/// output room allow.
pub open spec fn line_limit(t: Transformer, res: Stocks, caps: Stocks, states: RunStates) -> int {
    vstd::math::min(
        vstd::math::min(
            stock(res, t.input_id@) as int,
            stock(res, t.fuel_id@) * t.fuel_ops + state_of(states, t.id@).fuel_ops_left,
        ),
        capacity_of(caps, t.output_id@) - stock(res, t.output_id@),
    )
}

/// The fuel units that `ops` operations burn when `left` operations' worth
/// is already burning.
pub open spec fn fuel_burnt(ops: int, left: int, per_unit: int) -> int {
    if ops > left {
        ceil_div((ops - left) as u32, per_unit as u32) as int
    } else {
        0
    }
}

/// The operations' worth of fuel still burning after those operations.
pub open spec fn fuel_left(ops: int, left: int, per_unit: int) -> int {
    fuel_burnt(ops, left, per_unit) * per_unit + left - ops
}

/// The integer ranges that a prediction of the line `t` up to `target`
/// stays within: the event it looks for is defined, and the fuel burning
/// after its operations fits in 32 bits.
pub open spec fn prediction_bounded(
    t: Transformer,
    caps: Stocks,
    time: u64,
    res: Stocks,
    states: RunStates,
    target: u64,
) -> bool {
    let s = state_of(states, t.id@);
    let lim = line_limit(t, res, caps, states);
    let busy = lim * t.duration_secs - s.progress_secs;
    let a = if time + busy <= target {
        busy
    } else {
        target - time
    };
    let ops = (s.progress_secs + a) / (t.duration_secs as int);
    &&& s.progress_secs <= lim * t.duration_secs
    &&& lim * t.duration_secs <= u64::MAX
    &&& time + busy <= u64::MAX
    &&& stock(res, t.fuel_id@) * t.fuel_ops + s.fuel_ops_left <= u32::MAX
    &&& ops > 0 ==> fuel_burnt(ops, s.fuel_ops_left as int, t.fuel_ops as int) * t.fuel_ops
        + s.fuel_ops_left <= u32::MAX
}

/// The prediction of the line `t` in closed form: it runs until `target`,
/// or until its limit of operations is done when that comes no later, in
/// which case it reports which limit it reached.
pub open spec fn closed_prediction(
    t: Transformer,
    caps: Stocks,
    time: u64,
    res: Stocks,
    states: RunStates,
    target: u64,
) -> SimOutcome {
    let s = state_of(states, t.id@);
    let lim = line_limit(t, res, caps, states);
    let busy = lim * t.duration_secs - s.progress_secs;
    let stops = time + busy <= target;
    let a = if stops {
        busy
    } else {
        target - time
    };
    let ops = (s.progress_secs + a) / (t.duration_secs as int);
    let burnt = fuel_burnt(ops, s.fuel_ops_left as int, t.fuel_ops as int);
    let by_input = stock(res, t.input_id@) as int;
    let by_output = capacity_of(caps, t.output_id@) - stock(res, t.output_id@);
    SimOutcome {
        time: (time + a) as u64,
        resources: res.insert(t.input_id@, (stock(res, t.input_id@) - ops) as u32).insert(
            t.fuel_id@,
            (stock(res, t.fuel_id@) - burnt) as u32,
        ).insert(t.output_id@, (stock(res, t.output_id@) + ops) as u32),
        states: states.insert(
            t.id@,
            TransformerState {
                progress_secs: ((s.progress_secs + a) % (t.duration_secs as int)) as u64,
                fuel_ops_left: fuel_left(ops, s.fuel_ops_left as int, t.fuel_ops as int) as u32,
            },
        ),
        stop: if stops {
            Some(
                if lim == by_output {
                    StopReason::OutputFull
                } else if lim == by_input {
                    StopReason::InputEmpty
                } else {
                    StopReason::FuelEmpty
                },
            )
        } else {
            None
        },
    }
}

pub(crate) proof fn lemma_ceil_bounds(a: int, f: int)
    requires
        0 < a <= u32::MAX,
        1 <= f <= u32::MAX,
    ensures
        (ceil_div(a as u32, f as u32) - 1) * f < a <= ceil_div(a as u32, f as u32) * f,
        ceil_div(a as u32, f as u32) >= 1,
{
    lemma_fundamental_div_mod(a, f);
    let q = a / f;
    let r = a % f;
    assert(0 <= r < f);
    assert(q >= 0) by (nonlinear_arith)
        requires
            a == f * q + r,
            0 <= r < f,
            a > 0,
            f >= 1,
    ;
    assert(q <= a) by (nonlinear_arith)
        requires
            a == f * q + r,
            0 <= r,
            q >= 0,
            f >= 1,
    ;
    let c: int = if r == 0 {
        q
    } else {
        q + 1
    };
    assert(c <= u32::MAX) by (nonlinear_arith)
        requires
            a == f * q + r,
            0 <= r < f,
            q >= 0,
            f >= 1,
            a <= u32::MAX,
            c == if r == 0 {
                q
            } else {
                q + 1
            },
    ;
    assert(ceil_div(a as u32, f as u32) == c);
    assert((c - 1) * f < a <= c * f && c >= 1) by (nonlinear_arith)
        requires
            a == f * q + r,
            0 <= r < f,
            a > 0,
            f >= 1,
            c == if r == 0 {
                q
            } else {
                q + 1
            },
    ;
}

proof fn lemma_ceil_unique(a: int, f: int, c: int)
    requires
        0 < a <= u32::MAX,
        1 <= f <= u32::MAX,
        (c - 1) * f < a <= c * f,
    ensures
        c == ceil_div(a as u32, f as u32),
{
    lemma_ceil_bounds(a, f);
    let c0 = ceil_div(a as u32, f as u32) as int;
    assert(c == c0) by (nonlinear_arith)
        requires
            (c - 1) * f < a <= c * f,
            (c0 - 1) * f < a <= c0 * f,
            f >= 1,
    ;
}

proof fn lemma_fuel_left_bounds(ops: int, left: int, f: int)
    requires
        0 <= ops <= u32::MAX,
        0 <= left <= u32::MAX,
        1 <= f <= u32::MAX,
    ensures
        0 <= fuel_left(ops, left, f),
        ops > left ==> fuel_left(ops, left, f) < f,
        ops <= left ==> fuel_left(ops, left, f) == left - ops,
{
    if ops > left {
        lemma_ceil_bounds(ops - left, f);
        let c = ceil_div((ops - left) as u32, f as u32) as int;
        assert(c * f + left - ops < f) by (nonlinear_arith)
            requires
                (c - 1) * f < ops - left,
        ;
    }
}

/// Burning for `k1` operations and then for `k2` more is burning for
/// `k1 + k2`.
proof fn lemma_fuel_compose(k1: int, k2: int, left: int, f: int)
    requires
        0 <= k1,
        0 <= k2,
        k1 + k2 <= u32::MAX,
        0 <= left <= u32::MAX,
        1 <= f <= u32::MAX,
    ensures
        fuel_burnt(k1, left, f) + fuel_burnt(k2, fuel_left(k1, left, f), f) == fuel_burnt(
            k1 + k2,
            left,
            f,
        ),
        fuel_left(k2, fuel_left(k1, left, f), f) == fuel_left(k1 + k2, left, f),
{
    lemma_fuel_left_bounds(k1, left, f);
    let l1 = fuel_left(k1, left, f);
    if k1 <= left {
        assert(l1 == left - k1);
        assert(fuel_burnt(k2, l1, f) == fuel_burnt(k1 + k2, left, f));
        assert(fuel_left(k2, l1, f) == fuel_left(k1 + k2, left, f));
    } else {
        let x = k1 - left;
        lemma_ceil_bounds(x, f);
        let c1 = ceil_div(x as u32, f as u32) as int;
        assert(l1 == c1 * f - x);
        let y = k1 + k2 - left;
        lemma_ceil_bounds(y, f);
        let cy = ceil_div(y as u32, f as u32) as int;
        if k2 > l1 {
            let z = k2 - l1;
            assert(z == y - c1 * f);
            lemma_ceil_bounds(z, f);
            let c2 = ceil_div(z as u32, f as u32) as int;
            assert((c1 + c2 - 1) * f < y <= (c1 + c2) * f) by (nonlinear_arith)
                requires
                    (c2 - 1) * f < z <= c2 * f,
                    z == y - c1 * f,
            ;
            lemma_ceil_unique(y, f, c1 + c2);
            assert(c2 * f + l1 - k2 == (c1 + c2) * f + left - (k1 + k2)) by (nonlinear_arith)
                requires
                    l1 == c1 * f - x,
                    x == k1 - left,
            ;
        } else {
            assert((c1 - 1) * f < y <= c1 * f) by (nonlinear_arith)
                requires
                    (c1 - 1) * f < x <= c1 * f,
                    x <= y,
                    k2 <= l1,
                    l1 == c1 * f - x,
                    y == x + k2,
            ;
            lemma_ceil_unique(y, f, c1);
            assert(fuel_left(k2, l1, f) == l1 - k2);
            assert(fuel_left(k1 + k2, left, f) == c1 * f + left - (k1 + k2));
        }
    }
}

/// For a simple line of one transformer, a prediction is defined exactly
/// when its arithmetic stays in range, and it is then the closed form.
pub proof fn lemma_closed_prediction(
    ts: Seq<Transformer>,
    caps: Stocks,
    time: u64,
    res: Stocks,
    states: RunStates,
    target: u64,
)
    requires
        ts.len() == 1,
        simple_line(ts[0], res, caps),
        time <= target,
    ensures
        prediction(ts, caps, time, res, states, target) is Some <==> prediction_bounded(
            ts[0],
            caps,
            time,
            res,
            states,
            target,
        ),
        prediction(ts, caps, time, res, states, target) is Some ==> prediction(
            ts,
            caps,
            time,
            res,
            states,
            target,
        ) == Some(closed_prediction(ts[0], caps, time, res, states, target)),
{
    let t = ts[0];
    let s = state_of(states, t.id@);
    let d = t.duration_secs as int;
    let f = t.fuel_ops as int;
    let fl = s.fuel_ops_left as int;
    let p = s.progress_secs as int;
    let ev = transformer_event(t, time, res, caps, states);
    let lim = line_limit(t, res, caps, states);
    assert(stock(res, t.input_id@) / 1 == stock(res, t.input_id@));
    let bounded = prediction_bounded(t, caps, time, res, states, target);
    if ev is None {
        assert(earliest_event(ts, time, res, caps, states, 0, None) is None);
        assert(!bounded);
    } else {
        assert(earliest_event(ts, time, res, caps, states, 1, ev) == Some(ev));
        assert(earliest_event(ts, time, res, caps, states, 0, None) == Some(ev));
        let space = capacity_of(caps, t.output_id@) - stock(res, t.output_id@);
        assert(ev->0.time == time + lim * d - p);
        let busy = lim * d - p;
        let stops = time + busy <= target;
        let a: int = if stops {
            busy
        } else {
            target - time
        };
        assert(0 <= a <= busy);
        let total = p + a;
        assert(total / d <= lim) by (nonlinear_arith)
            requires
                total <= lim * d,
                d >= 1,
                total >= 0,
        ;
        assert(total / d >= 0) by (nonlinear_arith)
            requires
                total >= 0,
                d >= 1,
        ;
        let ops = total / d;
        let pt = predict_transformer(t, a as u64, res, states);
        if pt is None {
            assert(predict_line(ts, a as u64, res, states, 0) is None);
            assert(!bounded);
        } else {
            assert(bounded);
            let q = pt->0;
            assert(predict_line(ts, a as u64, q.0, q.1, 1) == Some(q));
            assert(predict_line(ts, a as u64, res, states, 0) == Some(q));
            let burnt = fuel_burnt(ops, fl, f);
            let c = closed_prediction(t, caps, time, res, states, target);
            lemma_fuel_left_bounds(ops, fl, f);
            if ops > fl {
                lemma_ceil_bounds(ops - fl, f);
                assert(burnt <= stock(res, t.fuel_id@)) by (nonlinear_arith)
                    requires
                        (burnt - 1) * f < ops - fl,
                        ops <= stock(res, t.fuel_id@) * f + fl,
                        f >= 1,
                ;
            }
            if ops == 0 {
                assert(c.resources =~= res);
            } else {
                assert(q.0 =~= c.resources);
            }
            assert(q.1 =~= c.states);
        }
    }
}

/// For a simple line of one transformer, predicting up to `t1`, committing
/// that, and predicting from it up to a later `t2` gives the prediction up
/// to `t2`.
proof fn lemma_closed_commit(
    t: Transformer,
    caps: Stocks,
    time: u64,
    res: Stocks,
    states: RunStates,
    t1: u64,
    t2: u64,
)
    requires
        simple_line(t, res, caps),
        time <= t1 <= t2,
        prediction_bounded(t, caps, time, res, states, t2),
    ensures
        ({
            let o1 = closed_prediction(t, caps, time, res, states, t1);
            &&& simple_line(t, o1.resources, caps)
            &&& o1.time <= t2
            &&& prediction_bounded(t, caps, o1.time, o1.resources, o1.states, t2)
            &&& closed_prediction(t, caps, o1.time, o1.resources, o1.states, t2)
                == closed_prediction(t, caps, time, res, states, t2)
        }),
{
    let s = state_of(states, t.id@);
    let d = t.duration_secs as int;
    let f = t.fuel_ops as int;
    let fl = s.fuel_ops_left as int;
    let p = s.progress_secs as int;
    let lim = line_limit(t, res, caps, states);
    let busy = lim * d - p;
    let inp = stock(res, t.input_id@) as int;
    let fu = stock(res, t.fuel_id@) as int;
    let out = stock(res, t.output_id@) as int;
    let cap = capacity_of(caps, t.output_id@) as int;
    // The first prediction.
    let a1: int = if time + busy <= t1 {
        busy
    } else {
        t1 - time
    };
    let x1 = p + a1;
    lemma_fundamental_div_mod(x1, d);
    let ops1 = x1 / d;
    let p1 = x1 % d;
    assert(0 <= ops1 <= lim) by (nonlinear_arith)
        requires
            x1 <= lim * d,
            x1 >= 0,
            d >= 1,
            ops1 == x1 / d,
    ;
    let b1 = fuel_burnt(ops1, fl, f);
    let l1 = fuel_left(ops1, fl, f);
    lemma_fuel_left_bounds(ops1, fl, f);
    if ops1 > fl {
        lemma_ceil_bounds(ops1 - fl, f);
        assert(b1 <= fu) by (nonlinear_arith)
            requires
                (b1 - 1) * f < ops1 - fl,
                ops1 <= fu * f + fl,
                f >= 1,
        ;
    }
    let o1 = closed_prediction(t, caps, time, res, states, t1);
    assert(stock(o1.resources, t.input_id@) == inp - ops1);
    assert(stock(o1.resources, t.fuel_id@) == fu - b1);
    assert(stock(o1.resources, t.output_id@) == out + ops1);
    let s1 = state_of(o1.states, t.id@);
    assert(s1.progress_secs == p1);
    assert(s1.fuel_ops_left == l1);
    assert((fu - b1) * f + l1 == fu * f + fl - ops1) by (nonlinear_arith)
        requires
            l1 == b1 * f + fl - ops1,
    ;
    let lim1 = line_limit(t, o1.resources, caps, o1.states);
    assert(lim1 == lim - ops1);
    let busy1 = lim1 * d - p1;
    assert(busy1 == busy - a1) by (nonlinear_arith)
        requires
            busy1 == lim1 * d - p1,
            lim1 == lim - ops1,
            x1 == d * ops1 + p1,
            x1 == p + a1,
            busy == lim * d - p,
    ;
    assert(o1.time == time + a1);
    // The second prediction and the direct one.
    let a: int = if time + busy <= t2 {
        busy
    } else {
        t2 - time
    };
    let a2: int = if o1.time + busy1 <= t2 {
        busy1
    } else {
        t2 - o1.time
    };
    assert(a1 + a2 == a);
    let x = p + a;
    lemma_fundamental_div_mod(x, d);
    let ops = x / d;
    let r = x % d;
    assert(p1 + a2 == (ops - ops1) * d + r) by (nonlinear_arith)
        requires
            p1 + a2 == x - d * ops1,
            x == d * ops + r,
    ;
    lemma_fundamental_div_mod_converse(p1 + a2, d, ops - ops1, r);
    assert(0 <= ops <= lim) by (nonlinear_arith)
        requires
            x <= lim * d,
            x >= 0,
            d >= 1,
            ops == x / d,
    ;
    lemma_fuel_compose(ops1, ops - ops1, fl, f);
    let o2 = closed_prediction(t, caps, o1.time, o1.resources, o1.states, t2);
    let o = closed_prediction(t, caps, time, res, states, t2);
    assert(o2.resources =~= o.resources);
    assert(o2.states =~= o.states);
    assert(o2.time == o.time);
    assert(o2.stop == o.stop);
    assert(lim1 * d <= lim * d) by (nonlinear_arith)
        requires
            lim1 <= lim,
            d >= 1,
    ;
    let ops2 = ops - ops1;
    if ops2 > 0 {
        let b2 = fuel_burnt(ops2, l1, f);
        let bd = fuel_burnt(ops, fl, f);
        assert(fuel_left(ops2, l1, f) == b2 * f + l1 - ops2);
        assert(fuel_left(ops, fl, f) == bd * f + fl - ops);
        assert(b2 * f + l1 == bd * f + fl - ops1);
    }
}

/// In the predictive modes, for a line of one simple transformer (see
/// `simple_line`), committing the state predicted for an intermediate time
/// leaves every later prediction unchanged: it is answered, with the same
/// time, stocks, running states and stop reason.
pub proof fn lemma_commit_keeps_later_predictions(
    e: SimulationEngine,
    committed: SimulationEngine,
    t1: u64,
    t2: u64,
)
    requires
        !(e.mode is DebugTick),
        e.base_state.transformers@.len() == 1,
        simple_line(e.base_state.transformers@[0], e.base_state.resources@, e.base_state.capacities@),
        e.base_state.time <= t1 <= t2,
        e.outcome_at(t1) is Some,
        e.outcome_at(t2) is Some,
        committed.mode == e.mode,
        committed.base_state.transformers == e.base_state.transformers,
        committed.base_state.capacities == e.base_state.capacities,
        committed.base_state.time == e.outcome_at(t1)->0.time,
        committed.base_state.resources@ == e.outcome_at(t1)->0.resources,
        committed.base_state.transformer_states@ == e.outcome_at(t1)->0.states,
    ensures
        committed.outcome_at(t2) == e.outcome_at(t2),
{
    let b = e.base_state;
    let ts = b.transformers@;
    let t = ts[0];
    let caps = b.capacities@;
    let res = b.resources@;
    let states = b.transformer_states@;
    lemma_predictive_query_is_prediction(e, t1);
    lemma_predictive_query_is_prediction(e, t2);
    lemma_predictive_query_is_prediction(committed, t2);
    lemma_closed_prediction(ts, caps, b.time, res, states, t1);
    lemma_closed_prediction(ts, caps, b.time, res, states, t2);
    lemma_closed_commit(t, caps, b.time, res, states, t1, t2);
    let o1 = closed_prediction(t, caps, b.time, res, states, t1);
    assert(o1.time == b.time + (o1.time - b.time));
    lemma_closed_prediction(ts, caps, o1.time, o1.resources, o1.states, t2);
}

/// In the predictive modes, for a line of one simple transformer, committing
/// the state for the same time twice changes nothing the second time: the
/// query for that time from the committed state gives back its time, stocks
/// and running states.
pub proof fn lemma_commit_twice_changes_nothing(
    e: SimulationEngine,
    committed: SimulationEngine,
    target: u64,
)
    requires
        !(e.mode is DebugTick),
        e.base_state.transformers@.len() == 1,
        simple_line(e.base_state.transformers@[0], e.base_state.resources@, e.base_state.capacities@),
        e.base_state.time <= target,
        e.outcome_at(target) is Some,
        committed.mode == e.mode,
        committed.base_state.transformers == e.base_state.transformers,
        committed.base_state.capacities == e.base_state.capacities,
        committed.base_state.time == e.outcome_at(target)->0.time,
        committed.base_state.resources@ == e.outcome_at(target)->0.resources,
        committed.base_state.transformer_states@ == e.outcome_at(target)->0.states,
    ensures
        committed.outcome_at(target)->0.time == committed.base_state.time,
        committed.outcome_at(target)->0.resources == committed.base_state.resources@,
        committed.outcome_at(target)->0.states == committed.base_state.transformer_states@,
{
    lemma_commit_keeps_later_predictions(e, committed, target, target);
}

} // verus!
