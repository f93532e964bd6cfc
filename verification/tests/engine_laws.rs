use liminality::engine::furnace::{
    furnace_line_base_state, simulate_furnace_line, COAL_ID, FURNACE_ID, INGOT_ID, ORE_ID,
};
use liminality::engine::{
    DebugTickConfig, Transformer, HybridConfig, PredictedEvent, PredictiveConfig, SimMode, SimulationEngine,
    SimulationError, StopReason, TransformerState,
};
use liminality::model::dto::WorldModel;

fn engine_for(world: WorldModel, mode: SimMode) -> SimulationEngine {
    SimulationEngine::new(furnace_line_base_state(&world), mode)
}

fn debug(tick: u64) -> SimMode {
    SimMode::DebugTick(DebugTickConfig { tick_duration_secs: tick })
}

fn predictive() -> SimMode {
    SimMode::Predictive(PredictiveConfig {})
}

#[test]
fn query_before_base_time_is_refused() {
    let mut engine = engine_for(WorldModel::furnace_line_demo(), predictive());
    engine.base_state.time = 100;
    assert_eq!(engine.state_at(50), Err(SimulationError::TimeInPast));
    assert_eq!(engine.materialize_at(99), Err(SimulationError::TimeInPast));
    assert_eq!(engine.base_state.time, 100);
    assert_eq!(engine.base_state.resources.get(COAL_ID), Some(32));
}

#[test]
fn error_messages() {
    assert_eq!(SimulationError::TimeInPast.message(), "Target time is in the past");
    assert_eq!(SimulationError::Stopped.message(), "Simulation stopped");
}

#[test]
fn debug_query_at_base_time_gives_base_state() {
    let engine = engine_for(WorldModel::furnace_line_demo(), debug(10));
    let state = engine.state_at(0).unwrap();
    assert_eq!(state.time, 0);
    assert_eq!(state.stop_reason, None);
    assert_eq!(state.resources, engine.base_state.resources);
}

#[test]
fn query_never_passes_target() {
    for seconds in [0u64, 7, 10, 333, 640, 1000] {
        for mode in [debug(1), debug(10), debug(7), predictive()] {
            let engine = engine_for(WorldModel::furnace_line_demo(), mode);
            let state = engine.state_at(seconds).unwrap();
            assert!(state.time <= seconds);
            if state.stop_reason.is_none() {
                assert_eq!(state.time, seconds);
            }
        }
    }
}

#[test]
fn debug_mode_respects_capacity() {
    for cap in [0u32, 1, 5, 64] {
        let mut engine = engine_for(WorldModel::furnace_line_demo(), debug(3));
        engine.base_state.capacities.insert(INGOT_ID.to_string(), cap);
        let state = engine.state_at(2000).unwrap();
        assert!(state.resources.get(INGOT_ID).unwrap() <= cap);
        assert_eq!(state.stop_reason, Some(StopReason::OutputFull));
    }
}

#[test]
fn step_debug_completes_one_operation_in_ten_seconds() {
    let engine = engine_for(WorldModel::furnace_line_demo(), debug(10));
    let (next, stop) = engine.step_debug(&engine.base_state, 10);
    assert_eq!(stop, None);
    assert_eq!(next.time, 10);
    assert_eq!(next.resources.get(INGOT_ID), Some(1));
    assert_eq!(next.resources.get(ORE_ID), Some(127));
    assert_eq!(next.resources.get(COAL_ID), Some(31));
    assert_eq!(
        next.transformer_states.get(FURNACE_ID),
        Some(TransformerState { progress_secs: 0, fuel_ops_left: 7 })
    );
}

#[test]
fn debug_mode_burns_coal_when_an_operation_starts() {
    let engine = engine_for(WorldModel::furnace_line_demo(), debug(1));
    let state = engine.state_at(5).unwrap();
    assert_eq!(state.resources.get(COAL_ID), Some(31));
    assert_eq!(state.resources.get(INGOT_ID), Some(0));
    let predicted = engine_for(WorldModel::furnace_line_demo(), predictive()).state_at(5).unwrap();
    assert_eq!(predicted.resources.get(COAL_ID), Some(32));
    assert_eq!(
        predicted.transformer_states.get(FURNACE_ID),
        Some(TransformerState { progress_secs: 5, fuel_ops_left: 0 })
    );
}

#[test]
fn debug_mode_stops_without_fuel() {
    let world = WorldModel { coal_storage: 0, ore_storage: 10, output_storage: 0 };
    let state = engine_for(world, debug(10)).state_at(100).unwrap();
    assert_eq!(state.time, 10);
    assert_eq!(state.stop_reason, Some(StopReason::FuelEmpty));
    assert_eq!(state.resources.get(INGOT_ID), Some(0));
}

#[test]
fn next_event_reports_the_limiting_stock() {
    let demo = engine_for(WorldModel::furnace_line_demo(), predictive());
    assert_eq!(
        demo.next_event_after(0),
        Some(PredictedEvent { time: 640, reason: StopReason::OutputFull })
    );
    let low_ore = engine_for(
        WorldModel { coal_storage: 32, ore_storage: 3, output_storage: 0 },
        predictive(),
    );
    assert_eq!(
        low_ore.next_event_after(0),
        Some(PredictedEvent { time: 30, reason: StopReason::InputEmpty })
    );
    let low_coal = engine_for(
        WorldModel { coal_storage: 1, ore_storage: 100, output_storage: 0 },
        predictive(),
    );
    assert_eq!(
        low_coal.next_event_after(0),
        Some(PredictedEvent { time: 80, reason: StopReason::FuelEmpty })
    );
}

#[test]
fn prediction_stops_when_fuel_runs_out() {
    let engine = engine_for(
        WorldModel { coal_storage: 1, ore_storage: 100, output_storage: 0 },
        predictive(),
    );
    let state = engine.predict_until(500).unwrap();
    assert_eq!(state.time, 80);
    assert_eq!(state.stop_reason, Some(StopReason::FuelEmpty));
    assert_eq!(state.resources.get(INGOT_ID), Some(8));
    assert_eq!(state.resources.get(ORE_ID), Some(92));
    assert_eq!(state.resources.get(COAL_ID), Some(0));
}

#[test]
fn hybrid_mode_predicts() {
    let hybrid = engine_for(WorldModel::furnace_line_demo(), SimMode::Hybrid(HybridConfig {}));
    let pred = engine_for(WorldModel::furnace_line_demo(), predictive());
    assert_eq!(hybrid.state_at(333).unwrap(), pred.state_at(333).unwrap());
}

#[test]
fn materialize_then_query_same_time() {
    let mut engine = engine_for(WorldModel::furnace_line_demo(), debug(10));
    engine.materialize_at(120).unwrap();
    assert_eq!(engine.base_state.time, 120);
    let again = engine.state_at(120).unwrap();
    assert_eq!(again.resources, engine.base_state.resources);
    assert_eq!(again.resources.get(INGOT_ID), Some(12));
}

#[test]
fn furnace_closed_form() {
    let full = WorldModel { coal_storage: 5, ore_storage: 5, output_storage: 70 };
    assert_eq!(simulate_furnace_line(&full, 1000), full);
    let w = WorldModel { coal_storage: 2, ore_storage: 100, output_storage: 10 };
    let after = simulate_furnace_line(&w, 95);
    assert_eq!(after, WorldModel { coal_storage: 0, ore_storage: 91, output_storage: 19 });
    let limited = simulate_furnace_line(&w, 10_000);
    assert_eq!(limited, WorldModel { coal_storage: 0, ore_storage: 84, output_storage: 26 });
}

fn glass_furnace(id: &str) -> Transformer {
    Transformer {
        id: id.to_string(),
        input_id: "sand".to_string(),
        input_qty: 1,
        fuel_id: COAL_ID.to_string(),
        fuel_ops: 8,
        output_id: "glass".to_string(),
        output_qty: 1,
        duration_secs: 10,
    }
}

#[test]
fn prediction_respects_capacity() {
    for cap in [0u32, 3, 5, 64] {
        let mut engine = engine_for(WorldModel::furnace_line_demo(), predictive());
        engine.base_state.capacities.insert(INGOT_ID.to_string(), cap);
        let state = engine.state_at(5000).unwrap();
        assert!(state.resources.get(INGOT_ID).unwrap() <= cap);
        assert_eq!(state.time, 10 * cap as u64);
        assert_eq!(state.stop_reason, Some(StopReason::OutputFull));
    }
}

#[test]
fn next_event_is_the_earliest_of_the_line() {
    let mut engine = engine_for(WorldModel::furnace_line_demo(), predictive());
    engine.base_state.resources.insert("sand".to_string(), 2);
    engine.base_state.transformers.push(glass_furnace("glass_1"));
    assert_eq!(
        engine.next_event_after(0),
        Some(PredictedEvent { time: 20, reason: StopReason::InputEmpty })
    );
    let state = engine.state_at(1000).unwrap();
    assert_eq!(state.time, 20);
    assert_eq!(state.resources.get("glass"), Some(2));
    assert_eq!(state.resources.get(INGOT_ID), Some(2));
}

#[test]
fn next_event_tie_goes_to_the_first_transformer() {
    let mut engine = engine_for(
        WorldModel { coal_storage: 32, ore_storage: 2, output_storage: 0 },
        predictive(),
    );
    engine.base_state.resources.insert("sand".to_string(), 100);
    engine.base_state.capacities.insert("glass".to_string(), 2);
    engine.base_state.transformers.push(glass_furnace("glass_1"));
    assert_eq!(
        engine.next_event_after(0),
        Some(PredictedEvent { time: 20, reason: StopReason::InputEmpty })
    );
}

#[test]
fn empty_line_never_stops() {
    let mut engine = engine_for(WorldModel::furnace_line_demo(), predictive());
    engine.base_state.transformers.clear();
    assert_eq!(engine.next_event_after(0), None);
    let state = engine.state_at(77).unwrap();
    assert_eq!(state.time, 77);
    assert_eq!(state.stop_reason, None);
    assert_eq!(state.resources, engine.base_state.resources);
}

#[test]
fn debug_tick_length_changes_only_the_reported_stop_time() {
    for cap in [5u32, 64] {
        let mut results = Vec::new();
        for tick in [1u64, 7, 10, 600] {
            let mut engine = engine_for(WorldModel::furnace_line_demo(), debug(tick));
            engine.base_state.capacities.insert(INGOT_ID.to_string(), cap);
            results.push(engine.state_at(600).unwrap());
        }
        for r in &results {
            assert_eq!(r.resources, results[0].resources);
            assert_eq!(r.transformer_states, results[0].transformer_states);
            assert_eq!(r.stop_reason, results[0].stop_reason);
        }
        if cap == 5 {
            assert_eq!(results[0].time, 51);
            assert_eq!(results[2].time, 60);
        } else {
            assert!(results.iter().all(|r| r.time == 600));
        }
    }
}

#[test]
fn furnace_modes_agree_on_whole_operations() {
    let worlds = [
        WorldModel::furnace_line_demo(),
        WorldModel { coal_storage: 2, ore_storage: 100, output_storage: 10 },
        WorldModel { coal_storage: 9, ore_storage: 7, output_storage: 0 },
    ];
    for w in worlds {
        let limit = w.ore_storage.min(w.coal_storage * 8).min(64u32.saturating_sub(w.output_storage));
        let mut k = 1u64;
        while k <= limit as u64 {
            let seconds = 10 * k;
            for tick in [1u64, 10, 30] {
                let d = engine_for(w, debug(tick)).state_at(seconds).unwrap();
                let p = engine_for(w, predictive()).state_at(seconds).unwrap();
                assert_eq!(d.time, seconds);
                assert_eq!(p.time, seconds);
                assert_eq!(d.resources, p.resources);
                assert_eq!(d.transformer_states, p.transformer_states);
                assert_eq!(d.stop_reason, None);
                if k < limit as u64 {
                    assert_eq!(p.stop_reason, None);
                }
                let closed = simulate_furnace_line(&w, seconds);
                assert_eq!(d.resources.get(COAL_ID), Some(closed.coal_storage));
                assert_eq!(d.resources.get(ORE_ID), Some(closed.ore_storage));
                assert_eq!(d.resources.get(INGOT_ID), Some(closed.output_storage));
            }
            k += 1;
        }
    }
}

#[test]
fn step_of_a_plus_b_is_two_steps() {
    let engine = engine_for(WorldModel::furnace_line_demo(), debug(1));
    for (a, b) in [(0u64, 10u64), (7, 13), (25, 40), (100, 333)] {
        let (whole, stop) = engine.step_debug(&engine.base_state, a + b);
        let (first, stop1) = engine.step_debug(&engine.base_state, a);
        assert_eq!(stop1, None);
        let (second, stop2) = engine.step_debug(&first, b);
        assert_eq!(stop, stop2);
        assert_eq!(whole.time, second.time);
        assert_eq!(whole.resources, second.resources);
        assert_eq!(whole.transformer_states, second.transformer_states);
    }
}

#[test]
fn step_keeps_outputs_within_capacity_from_any_state() {
    let mut engine = engine_for(WorldModel::furnace_line_demo(), debug(1));
    engine.base_state.capacities.insert(INGOT_ID.to_string(), 3);
    let mut state = furnace_line_base_state(&WorldModel {
        coal_storage: 5,
        ore_storage: 50,
        output_storage: 2,
    });
    state.transformer_states.insert(
        FURNACE_ID.to_string(),
        TransformerState { progress_secs: 9, fuel_ops_left: 1 },
    );
    let (next, stop) = engine.step_debug(&state, 100);
    assert_eq!(next.resources.get(INGOT_ID), Some(3));
    assert_eq!(stop, Some(StopReason::OutputFull));
}

#[test]
fn predictive_query_is_predict_until() {
    for seconds in [0u64, 5, 600, 640, 900] {
        let pred = engine_for(WorldModel::furnace_line_demo(), predictive());
        let hybrid = engine_for(WorldModel::furnace_line_demo(), SimMode::Hybrid(HybridConfig {}));
        assert_eq!(pred.state_at(seconds).unwrap(), pred.predict_until(seconds).unwrap());
        assert_eq!(hybrid.state_at(seconds).unwrap(), hybrid.predict_until(seconds).unwrap());
    }
}

#[test]
fn committing_keeps_later_predictions() {
    let worlds = [
        WorldModel::furnace_line_demo(),
        WorldModel { coal_storage: 1, ore_storage: 100, output_storage: 0 },
        WorldModel { coal_storage: 9, ore_storage: 3, output_storage: 60 },
    ];
    for w in worlds {
        for (t1, t2) in [(0u64, 0u64), (5, 17), (13, 600), (600, 700), (75, 76), (640, 2000)] {
            let direct = engine_for(w, predictive()).state_at(t2).unwrap();
            let mut engine = engine_for(w, predictive());
            engine.materialize_at(t1).unwrap();
            let later = engine.state_at(t2).unwrap();
            assert_eq!(later, direct);
        }
    }
}

#[test]
fn committing_twice_changes_nothing() {
    for t in [0u64, 7, 600, 640, 1000] {
        let mut engine = engine_for(WorldModel::furnace_line_demo(), predictive());
        engine.materialize_at(t).unwrap();
        let time = engine.base_state.time;
        let resources = engine.base_state.resources.clone();
        let states = engine.base_state.transformer_states.clone();
        engine.materialize_at(t).unwrap();
        assert_eq!(engine.base_state.time, time);
        assert_eq!(engine.base_state.resources, resources);
        assert_eq!(engine.base_state.transformer_states, states);
    }
}
