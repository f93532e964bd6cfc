//! The furnace line: one furnace that smelts iron ore into ingots with coal,
//! its ingot storage holding 64.
use super::debug::stock_in;
use super::spec::{
    ceil_div, min_u32, earliest_event, predict_line, predict_transformer, prediction, stock,
    transformer_event,
};
use super::types::{
    BaseState, ComputedState, PredictiveConfig, SimMode, SimulationEngine, Transformer,
    TransformerState,
};
use crate::id_map::IdMap;
use crate::model::dto::WorldModel;
use vstd::prelude::*;

verus! {

pub const COAL_ID: &'static str = "coal";

pub const ORE_ID: &'static str = "iron_ore";

pub const INGOT_ID: &'static str = "iron_ingot";

pub const FURNACE_ID: &'static str = "furnace_1";

/// The ingot storage's capacity.
pub const INGOT_CAPACITY: u32 = 64;

/// Whether `t` is the line's furnace: one ore and one tenth of a coal (a
/// coal lasts 8 operations) make one ingot every 10 seconds.
pub open spec fn is_furnace(t: Transformer) -> bool {
    &&& t.id@ == FURNACE_ID@
    &&& t.input_id@ == ORE_ID@
    &&& t.input_qty == 1
    &&& t.fuel_id@ == COAL_ID@
    &&& t.fuel_ops == 8
    &&& t.output_id@ == INGOT_ID@
    &&& t.output_qty == 1
    &&& t.duration_secs == 10
}

/// The stocks of the line for the world `w`.
pub open spec fn furnace_stocks(w: WorldModel) -> Map<Seq<char>, u32> {
    Map::empty().insert(COAL_ID@, w.coal_storage).insert(ORE_ID@, w.ore_storage).insert(
        INGOT_ID@,
        w.output_storage,
    )
}

/// The capacities of the line.
pub open spec fn furnace_capacities() -> Map<Seq<char>, u32> {
    Map::empty().insert(INGOT_ID@, INGOT_CAPACITY)
}

/// The number of ingots the line makes in `seconds` from `w`: one every 10
/// seconds, as long as ore, coal (8 ingots a coal) and room in the storage
/// last.
pub open spec fn furnace_ops(w: WorldModel, seconds: u64) -> int {
    let room: int = if w.output_storage <= INGOT_CAPACITY {
        INGOT_CAPACITY - w.output_storage
    } else {
        0
    };
    let by_stock = vstd::math::min(vstd::math::min(w.ore_storage as int, w.coal_storage * 8), room);
    vstd::math::min(by_stock, (seconds / 10) as int)
}

/// The world after `seconds` of the line: the ingots made added, their ore
/// and coal taken.
pub open spec fn furnace_after(w: WorldModel, seconds: u64) -> WorldModel {
    let n = furnace_ops(w, seconds);
    WorldModel {
        coal_storage: (w.coal_storage - ceil_div(n as u32, 8)) as u32,
        ore_storage: (w.ore_storage - n) as u32,
        output_storage: (w.output_storage + n) as u32,
    }
}

/// The base state of the line for the world `start`, at time zero.
pub fn furnace_line_base_state(start: &WorldModel) -> (b: BaseState)
    ensures
        b.time == 0,
        b.resources@ == furnace_stocks(*start),
        b.capacities@ == furnace_capacities(),
        b.transformers@.len() == 1,
        is_furnace(b.transformers@[0]),
        b.transformer_states@ == Map::<Seq<char>, TransformerState>::empty(),
{
    let mut resources: IdMap<u32> = IdMap::new();
    resources.insert(COAL_ID.to_owned(), start.coal_storage);
    resources.insert(ORE_ID.to_owned(), start.ore_storage);
    resources.insert(INGOT_ID.to_owned(), start.output_storage);
    let mut capacities: IdMap<u32> = IdMap::new();
    capacities.insert(INGOT_ID.to_owned(), INGOT_CAPACITY);
    let transformer = Transformer {
        id: FURNACE_ID.to_owned(),
        input_id: ORE_ID.to_owned(),
        input_qty: 1,
        fuel_id: COAL_ID.to_owned(),
        fuel_ops: 8,
        output_id: INGOT_ID.to_owned(),
        output_qty: 1,
        duration_secs: 10,
    };
    let mut transformers: Vec<Transformer> = Vec::new();
    transformers.push(transformer);
    BaseState {
        time: 0,
        resources,
        capacities,
        transformers,
        transformer_states: IdMap::new(),
    }
}

/// The world's stocks in a computed state; a missing stock is zero.
pub fn world_model_from_computed_state(state: &ComputedState) -> (w: WorldModel)
    ensures
        w.coal_storage == stock(state.resources@, COAL_ID@),
        w.ore_storage == stock(state.resources@, ORE_ID@),
        w.output_storage == stock(state.resources@, INGOT_ID@),
{
    WorldModel {
        coal_storage: stock_in(&state.resources, &COAL_ID.to_owned()),
        ore_storage: stock_in(&state.resources, &ORE_ID.to_owned()),
        output_storage: stock_in(&state.resources, &INGOT_ID.to_owned()),
    }
}

/// The operations that the line's stocks and room allow.
pub open spec fn furnace_limit(w: WorldModel) -> u32 {
    min_u32(
        min_u32(w.ore_storage, (w.coal_storage * 8) as u32),
        INGOT_CAPACITY.saturating_sub(w.output_storage),
    )
}

pub proof fn lemma_furnace_keys(w: WorldModel)
    ensures
        COAL_ID@ != ORE_ID@,
        COAL_ID@ != INGOT_ID@,
        ORE_ID@ != INGOT_ID@,
        stock(furnace_stocks(w), COAL_ID@) == w.coal_storage,
        stock(furnace_stocks(w), ORE_ID@) == w.ore_storage,
        stock(furnace_stocks(w), INGOT_ID@) == w.output_storage,
        furnace_stocks(w).contains_key(COAL_ID@),
        furnace_stocks(w).contains_key(ORE_ID@),
        furnace_stocks(w).contains_key(INGOT_ID@),
        furnace_capacities().contains_key(INGOT_ID@),
        furnace_capacities()[INGOT_ID@] == INGOT_CAPACITY,
{
    reveal_strlit("coal");
    reveal_strlit("iron_ore");
    reveal_strlit("iron_ingot");
    assert(COAL_ID@.len() == 4);
    assert(ORE_ID@.len() == 8);
    assert(INGOT_ID@.len() == 10);
}

pub proof fn lemma_furnace_event(t: Transformer, w: WorldModel)
    requires
        is_furnace(t),
        w.coal_storage * 8 <= u32::MAX,
    ensures
        transformer_event(
            t,
            0,
            furnace_stocks(w),
            furnace_capacities(),
            Map::<Seq<char>, TransformerState>::empty(),
        ) is Some,
        transformer_event(
            t,
            0,
            furnace_stocks(w),
            furnace_capacities(),
            Map::<Seq<char>, TransformerState>::empty(),
        )->0.time == furnace_limit(w) * 10,
{
    lemma_furnace_keys(w);
}

proof fn lemma_furnace_run(t: Transformer, w: WorldModel, actual: u64)
    requires
        is_furnace(t),
        w.coal_storage * 8 <= u32::MAX,
        actual / 10 <= furnace_limit(w),
    ensures
        ({
            let p = predict_transformer(
                t,
                actual,
                furnace_stocks(w),
                Map::<Seq<char>, TransformerState>::empty(),
            );
            let n = actual / 10;
            let q = p->0;
            &&& p is Some
            &&& stock(q.0, COAL_ID@) == w.coal_storage - ceil_div(n as u32, 8)
            &&& stock(q.0, ORE_ID@) == w.ore_storage - n
            &&& stock(q.0, INGOT_ID@) == w.output_storage + n
        }),
{
    lemma_furnace_keys(w);
    let n = actual / 10;
    if n > 0 {
        assert(ceil_div(n as u32, 8) <= w.coal_storage);
        assert(w.output_storage + n <= 64);
    }
}

/// A prediction of the furnace line is the closed form `furnace_after`.
proof fn lemma_furnace_prediction(ts: Seq<Transformer>, w: WorldModel, seconds: u64)
    requires
        ts.len() == 1,
        is_furnace(ts[0]),
        w.coal_storage * 8 <= u32::MAX,
    ensures
        ({
            let p = prediction(
                ts,
                furnace_capacities(),
                0,
                furnace_stocks(w),
                Map::<Seq<char>, TransformerState>::empty(),
                seconds,
            );
            &&& p is Some
            &&& stock(p->0.resources, COAL_ID@) == furnace_after(w, seconds).coal_storage
            &&& stock(p->0.resources, ORE_ID@) == furnace_after(w, seconds).ore_storage
            &&& stock(p->0.resources, INGOT_ID@) == furnace_after(w, seconds).output_storage
        }),
{
    let t = ts[0];
    let res = furnace_stocks(w);
    let caps = furnace_capacities();
    let states = Map::<Seq<char>, TransformerState>::empty();
    lemma_furnace_event(t, w);
    let ev = transformer_event(t, 0, res, caps, states);
    assert(earliest_event(ts, 0, res, caps, states, 1, ev) == Some(ev));
    assert(earliest_event(ts, 0, res, caps, states, 0, None) == Some(ev));
    let lim = furnace_limit(w);
    let actual: u64 = if lim * 10 <= seconds {
        (lim * 10) as u64
    } else {
        seconds
    };
    let n = furnace_ops(w, seconds);
    assert(n == lim || n == seconds / 10);
    assert(actual / 10 == n) by {
        if lim * 10 <= seconds {
            assert(seconds / 10 >= lim);
        } else {
            assert(seconds / 10 < lim);
        }
    }
    lemma_furnace_run(t, w, actual);
    let pt = predict_transformer(t, actual, res, states);
    let (r, st) = pt->0;
    assert(predict_line(ts, actual, r, st, 1) == Some((r, st)));
    assert(predict_line(ts, actual, res, states, 0) == Some((r, st)));
}

/// Runs the furnace line from `start_state` for `seconds` in predictive
/// mode: the line makes one ingot every 10 seconds, as long as ore, coal (8
/// ingots a coal) and room in the ingot storage (64) last.
pub fn simulate_furnace_line(start_state: &WorldModel, seconds: u64) -> (w: WorldModel)
    requires
        start_state.coal_storage * 8 <= u32::MAX,
    ensures
        w == furnace_after(*start_state, seconds),
{
    let engine = SimulationEngine::new(
        furnace_line_base_state(start_state),
        SimMode::Predictive(PredictiveConfig {}),
    );
    proof {
        lemma_furnace_prediction(engine.base_state.transformers@, *start_state, seconds);
    }
    match engine.state_at(seconds) {
        Ok(computed_state) => world_model_from_computed_state(&computed_state),
        Err(_) => {
            proof {
                assert(false);
            }
            WorldModel { coal_storage: 0, ore_storage: 0, output_storage: 0 }
        },
    }
}

} // verus!
