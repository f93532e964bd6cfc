//! The furnace line second by second, and where its debug-tick and
//! predictive modes agree.
use super::furnace::{
    furnace_after, furnace_capacities, furnace_limit, furnace_ops, furnace_stocks, is_furnace,
    lemma_furnace_keys, COAL_ID, FURNACE_ID, INGOT_CAPACITY, INGOT_ID, ORE_ID,
};
use super::laws::{lemma_run_split, lemma_single_debug_ignores_tick_length};
use super::spec::{
    ceil_div, earliest_event, idle_state, predict_line, predict_transformer, run_ticks,
    state_of, tick, transformer_event,
};
use super::types::{SimulationEngine, StopReason, Transformer, TransformerState};
use crate::model::dto::WorldModel;
use vstd::prelude::*;

verus! {

/// The fuel operations left after `k` operations of a line that started
/// idle: the coal burnt covers 8 operations each.
pub open spec fn fuel_left_after(k: int) -> int {
    ceil_div(k as u32, 8) * 8 - k
}

/// The line's stocks after `k` operations from `w`.
pub open spec fn after_ops(w: WorldModel, k: int) -> WorldModel {
    WorldModel {
        coal_storage: (w.coal_storage - ceil_div(k as u32, 8)) as u32,
        ore_storage: (w.ore_storage - k) as u32,
        output_storage: (w.output_storage + k) as u32,
    }
}

proof fn lemma_tick_progress(t: Transformer, w: WorldModel, p: u64, f: u32)
    requires
        is_furnace(t),
        w.ore_storage >= 1,
        w.output_storage + 1 <= INGOT_CAPACITY,
        f > 0,
        p + 1 < 10,
    ensures
        tick(
            t,
            INGOT_CAPACITY,
            furnace_stocks(w),
            TransformerState { progress_secs: p, fuel_ops_left: f },
        ) == Some(
            (
                furnace_stocks(w),
                TransformerState { progress_secs: (p + 1) as u64, fuel_ops_left: f },
                None::<StopReason>,
            ),
        ),
{
    lemma_furnace_keys(w);
}

proof fn lemma_tick_refuel(t: Transformer, w: WorldModel)
    requires
        is_furnace(t),
        w.coal_storage >= 1,
        w.ore_storage >= 1,
        w.output_storage + 1 <= INGOT_CAPACITY,
    ensures
        tick(t, INGOT_CAPACITY, furnace_stocks(w), idle_state()) == Some(
            (
                furnace_stocks(
                    WorldModel {
                        coal_storage: (w.coal_storage - 1) as u32,
                        ore_storage: w.ore_storage,
                        output_storage: w.output_storage,
                    },
                ),
                TransformerState { progress_secs: 1, fuel_ops_left: 8 },
                None::<StopReason>,
            ),
        ),
{
    lemma_furnace_keys(w);
    let w1 = WorldModel {
        coal_storage: (w.coal_storage - 1) as u32,
        ore_storage: w.ore_storage,
        output_storage: w.output_storage,
    };
    lemma_furnace_keys(w1);
    assert(furnace_stocks(w).insert(COAL_ID@, (w.coal_storage - 1) as u32) =~= furnace_stocks(
        w1,
    ));
}

proof fn lemma_tick_complete(t: Transformer, w: WorldModel, f: u32)
    requires
        is_furnace(t),
        w.ore_storage >= 1,
        w.output_storage + 1 <= INGOT_CAPACITY,
        f > 0,
    ensures
        tick(
            t,
            INGOT_CAPACITY,
            furnace_stocks(w),
            TransformerState { progress_secs: 9, fuel_ops_left: f },
        ) == Some(
            (
                furnace_stocks(
                    WorldModel {
                        coal_storage: w.coal_storage,
                        ore_storage: (w.ore_storage - 1) as u32,
                        output_storage: (w.output_storage + 1) as u32,
                    },
                ),
                TransformerState { progress_secs: 0, fuel_ops_left: (f - 1) as u32 },
                None::<StopReason>,
            ),
        ),
{
    lemma_furnace_keys(w);
    let w1 = WorldModel {
        coal_storage: w.coal_storage,
        ore_storage: (w.ore_storage - 1) as u32,
        output_storage: (w.output_storage + 1) as u32,
    };
    lemma_furnace_keys(w1);
    let r = furnace_stocks(w).insert(ORE_ID@, (w.ore_storage - 1) as u32);
    assert(r.insert(INGOT_ID@, (w.output_storage + 1) as u32) =~= furnace_stocks(w1));
}

proof fn lemma_run_progress(t: Transformer, w: WorldModel, p: u64, f: u32, n: nat)
    requires
        is_furnace(t),
        w.ore_storage >= 1,
        w.output_storage + 1 <= INGOT_CAPACITY,
        f > 0,
        p + n <= 9,
    ensures
        run_ticks(
            t,
            INGOT_CAPACITY,
            furnace_stocks(w),
            TransformerState { progress_secs: p, fuel_ops_left: f },
            n,
        ) == Some(
            (
                furnace_stocks(w),
                TransformerState { progress_secs: (p + n) as u64, fuel_ops_left: f },
                None::<StopReason>,
            ),
        ),
    decreases n,
{
    if n > 0 {
        lemma_tick_progress(t, w, p, f);
        lemma_run_progress(t, w, (p + 1) as u64, f, (n - 1) as nat);
    }
}

/// One operation, ten seconds long, from a state with no progress: it burns
/// a coal first when no fuel is burning.
proof fn lemma_run_op(t: Transformer, w: WorldModel, f: u32)
    requires
        is_furnace(t),
        w.ore_storage >= 1,
        w.output_storage + 1 <= INGOT_CAPACITY,
        f == 0 ==> w.coal_storage >= 1,
        f <= 8,
    ensures
        run_ticks(
            t,
            INGOT_CAPACITY,
            furnace_stocks(w),
            TransformerState { progress_secs: 0, fuel_ops_left: f },
            10,
        ) == Some(
            (
                furnace_stocks(
                    WorldModel {
                        coal_storage: (w.coal_storage - (if f == 0 {
                            1int
                        } else {
                            0int
                        })) as u32,
                        ore_storage: (w.ore_storage - 1) as u32,
                        output_storage: (w.output_storage + 1) as u32,
                    },
                ),
                TransformerState {
                    progress_secs: 0,
                    fuel_ops_left: (if f == 0 {
                        7int
                    } else {
                        f - 1
                    }) as u32,
                },
                None::<StopReason>,
            ),
        ),
{
    let w1 = WorldModel {
        coal_storage: (w.coal_storage - (if f == 0 {
            1int
        } else {
            0int
        })) as u32,
        ore_storage: w.ore_storage,
        output_storage: w.output_storage,
    };
    let f1: u32 = if f == 0 {
        8
    } else {
        f
    };
    if f == 0 {
        lemma_tick_refuel(t, w);
    } else {
        lemma_tick_progress(t, w, 0, f);
        assert(w1 == w);
    }
    let s1 = TransformerState { progress_secs: 1, fuel_ops_left: f1 };
    lemma_run_progress(t, w1, 1, f1, 8);
    lemma_tick_complete(t, w1, f1);
    let s9 = TransformerState { progress_secs: 9, fuel_ops_left: f1 };
    let last = tick(t, INGOT_CAPACITY, furnace_stocks(w1), s9)->0;
    assert(run_ticks(t, INGOT_CAPACITY, last.0, last.1, 0) == Some(last));
    assert(run_ticks(t, INGOT_CAPACITY, furnace_stocks(w1), s9, 1) == Some(last));
    lemma_run_split(t, INGOT_CAPACITY, furnace_stocks(w1), s1, 8, 1);
    assert(run_ticks(t, INGOT_CAPACITY, furnace_stocks(w1), s1, 9) == Some(last));
}

/// `k` operations of the line from `w`, started idle, as long as ore, coal
/// and ingot room last.
pub proof fn lemma_run_ops(t: Transformer, w: WorldModel, k: nat)
    requires
        is_furnace(t),
        w.coal_storage * 8 <= u32::MAX,
        k <= furnace_limit(w),
    ensures
        run_ticks(t, INGOT_CAPACITY, furnace_stocks(w), idle_state(), 10 * k) == Some(
            (
                furnace_stocks(after_ops(w, k as int)),
                TransformerState {
                    progress_secs: 0,
                    fuel_ops_left: fuel_left_after(k as int) as u32,
                },
                None::<StopReason>,
            ),
        ),
    decreases k,
{
    if k == 0 {
        assert(after_ops(w, 0) == w);
    } else {
        let j = (k - 1) as nat;
        lemma_run_ops(t, w, j);
        let wj = after_ops(w, j as int);
        let fj = fuel_left_after(j as int) as u32;
        assert(0 <= fuel_left_after(j as int) <= 7);
        assert(fuel_left_after(j as int) == 0 <==> j % 8 == 0);
        lemma_run_op(t, wj, fj);
        lemma_run_split(t, INGOT_CAPACITY, furnace_stocks(w), idle_state(), 10 * j, 10);
        assert(10 * j + 10 == 10 * k);
        assert(after_ops(w, k as int) == WorldModel {
            coal_storage: (wj.coal_storage - (if fj == 0 {
                1int
            } else {
                0int
            })) as u32,
            ore_storage: (wj.ore_storage - 1) as u32,
            output_storage: (wj.output_storage + 1) as u32,
        });
    }
}

/// `k` operations of the furnace in closed form, from `w` and an idle state.
proof fn lemma_predict_ops(t: Transformer, w: WorldModel, k: nat)
    requires
        is_furnace(t),
        w.coal_storage * 8 <= u32::MAX,
        1 <= k <= furnace_limit(w),
    ensures
        predict_transformer(
            t,
            (10 * k) as u64,
            furnace_stocks(w),
            Map::<Seq<char>, TransformerState>::empty(),
        ) == Some(
            (
                furnace_stocks(after_ops(w, k as int)),
                Map::<Seq<char>, TransformerState>::empty().insert(
                    FURNACE_ID@,
                    TransformerState {
                        progress_secs: 0,
                        fuel_ops_left: fuel_left_after(k as int) as u32,
                    },
                ),
            ),
        ),
{
    lemma_furnace_keys(w);
    let w2 = after_ops(w, k as int);
    lemma_furnace_keys(w2);
    let n = ceil_div(k as u32, 8);
    assert(n <= w.coal_storage);
    assert(n * 8 <= k + 7);
    let r1 = furnace_stocks(w).insert(ORE_ID@, (w.ore_storage - k) as u32);
    let r2 = r1.insert(COAL_ID@, (w.coal_storage - n) as u32);
    let r3 = r2.insert(INGOT_ID@, (w.output_storage + k) as u32);
    assert(r3 =~= furnace_stocks(w2));
    let p = predict_transformer(
        t,
        (10 * k) as u64,
        furnace_stocks(w),
        Map::<Seq<char>, TransformerState>::empty(),
    )->0;
    assert(p.0 == r3);
}

/// Where the furnace line's two modes agree: at every whole number of
/// operations, up to the operation at which the line first stops, a
/// debug-tick run (of any tick length) and a prediction from the same world
/// give the same time, stocks and running states, the stocks being those of
/// `furnace_after`; before that operation neither reports a stop.
pub proof fn lemma_furnace_modes_agree(
    debug_engine: SimulationEngine,
    predictive_engine: SimulationEngine,
    w: WorldModel,
    seconds: u64,
)
    requires
        debug_engine.mode is DebugTick,
        !(predictive_engine.mode is DebugTick),
        debug_engine.base_state.time == 0,
        debug_engine.base_state.resources@ == furnace_stocks(w),
        debug_engine.base_state.capacities@ == furnace_capacities(),
        debug_engine.base_state.transformers@.len() == 1,
        is_furnace(debug_engine.base_state.transformers@[0]),
        debug_engine.base_state.transformer_states@ == Map::<
            Seq<char>,
            TransformerState,
        >::empty(),
        predictive_engine.base_state.time == 0,
        predictive_engine.base_state.resources@ == furnace_stocks(w),
        predictive_engine.base_state.capacities@ == furnace_capacities(),
        predictive_engine.base_state.transformers@.len() == 1,
        is_furnace(predictive_engine.base_state.transformers@[0]),
        predictive_engine.base_state.transformer_states@ == Map::<
            Seq<char>,
            TransformerState,
        >::empty(),
        w.coal_storage * 8 <= u32::MAX,
        seconds > 0,
        seconds % 10 == 0,
        seconds <= 10 * furnace_limit(w),
        debug_engine.outcome_at(seconds) is Some,
    ensures
        predictive_engine.outcome_at(seconds) is Some,
        ({
            let d = debug_engine.outcome_at(seconds)->0;
            let p = predictive_engine.outcome_at(seconds)->0;
            &&& d.time == seconds
            &&& p.time == seconds
            &&& d.resources == furnace_stocks(furnace_after(w, seconds))
            &&& p.resources == d.resources
            &&& p.states == d.states
            &&& d.stop is None
            &&& seconds < 10 * furnace_limit(w) ==> p.stop is None
        }),
{
    let k = (seconds / 10) as nat;
    assert(seconds == 10 * k);
    let empty = Map::<Seq<char>, TransformerState>::empty();
    lemma_furnace_keys(w);
    // The debug-tick run.
    let db = debug_engine.base_state;
    let td = db.transformers@[0];
    lemma_single_debug_ignores_tick_length(debug_engine, seconds);
    assert(state_of(empty, td.id@) == idle_state());
    lemma_run_ops(td, w, k);
    let st = TransformerState { progress_secs: 0, fuel_ops_left: fuel_left_after(k as int) as u32 };
    assert(furnace_ops(w, seconds) == k);
    assert(furnace_after(w, seconds) == after_ops(w, k as int));
    // The prediction.
    let pb = predictive_engine.base_state;
    let ts = pb.transformers@;
    let tp = ts[0];
    let res = furnace_stocks(w);
    let caps = furnace_capacities();
    super::furnace::lemma_furnace_event(tp, w);
    let ev = transformer_event(tp, 0, res, caps, empty);
    assert(earliest_event(ts, 0, res, caps, empty, 1, ev) == Some(ev));
    assert(earliest_event(ts, 0, res, caps, empty, 0, None) == Some(ev));
    lemma_predict_ops(tp, w, k);
    let q = predict_transformer(tp, seconds, res, empty)->0;
    assert(predict_line(ts, seconds, q.0, q.1, 1) == Some(q));
    assert(predict_line(ts, seconds, res, empty, 0) == Some(q));
    assert(empty.insert(td.id@, st) == empty.insert(FURNACE_ID@, st));
    let d = debug_engine.outcome_at(seconds)->0;
    assert(d.stop is None);
    super::laws::lemma_query_stays_within_target(debug_engine, seconds);
}

} // verus!
