use liminality::engine::furnace::{
    furnace_line_base_state, simulate_furnace_line, COAL_ID, INGOT_ID, ORE_ID,
};
use liminality::engine::{
    BaseState, ComputedState, DebugTickConfig, PredictiveConfig, SimMode, SimulationEngine,
    StopReason,
};
use liminality::model::dto::WorldModel;

fn create_test_base_state() -> BaseState {
    furnace_line_base_state(&WorldModel::furnace_line_demo())
}

fn create_low_capacity_state(output_capacity: u32) -> BaseState {
    let mut state = create_test_base_state();
    state.capacities.insert(INGOT_ID.to_string(), output_capacity);
    state
}

fn create_sparse_input_state(ore: u32) -> BaseState {
    let mut state = create_test_base_state();
    state.resources.insert(ORE_ID.to_string(), ore);
    state
}

fn assert_world_model(state: &WorldModel, ingots: u32, ore: u32, coal: u32) {
    assert_eq!(state.output_storage, ingots);
    assert_eq!(state.ore_storage, ore);
    assert_eq!(state.coal_storage, coal);
}

fn assert_computed_resources(state: &ComputedState, ingots: u32, ore: u32, coal: u32) {
    assert_eq!(state.resources.get(INGOT_ID), Some(ingots));
    assert_eq!(state.resources.get(ORE_ID), Some(ore));
    assert_eq!(state.resources.get(COAL_ID), Some(coal));
}

fn assert_stop_reason(state: &ComputedState, reason: Option<StopReason>) {
    assert_eq!(state.stop_reason, reason);
}

fn assert_state_time(state: &ComputedState, time: u64) {
    assert_eq!(state.time, time);
}

fn predictive_engine() -> SimulationEngine {
    SimulationEngine::new(create_test_base_state(), SimMode::Predictive(PredictiveConfig {}))
}

fn debug_engine(tick_duration_secs: u64) -> SimulationEngine {
    SimulationEngine::new(
        create_test_base_state(),
        SimMode::DebugTick(DebugTickConfig { tick_duration_secs }),
    )
}

fn low_capacity_debug_engine(output_capacity: u32, tick_duration_secs: u64) -> SimulationEngine {
    SimulationEngine::new(
        create_low_capacity_state(output_capacity),
        SimMode::DebugTick(DebugTickConfig { tick_duration_secs }),
    )
}

fn sparse_input_predictive_engine(ore: u32) -> SimulationEngine {
    SimulationEngine::new(
        create_sparse_input_state(ore),
        SimMode::Predictive(PredictiveConfig {}),
    )
}

fn simulated_world(seconds: u64) -> WorldModel {
    simulate_furnace_line(&WorldModel::furnace_line_demo(), seconds)
}

fn assert_simulated_world(seconds: u64, ingots: u32, ore: u32, coal: u32) {
    let state = simulated_world(seconds);
    assert_world_model(&state, ingots, ore, coal);
}

fn assert_prediction_matches_debug(seconds: u64) {
    let state_debug = debug_engine(1).state_at(seconds).unwrap();
    let state_pred = predictive_engine().state_at(seconds).unwrap();

    assert_eq!(state_debug.time, state_pred.time);
    assert_eq!(state_debug.resources, state_pred.resources);
    assert_eq!(state_debug.stop_reason, state_pred.stop_reason);
}

fn assert_materialized_state(seconds: u64, ingots: u32, coal: u32) {
    let mut engine = predictive_engine();
    engine.materialize_at(seconds).unwrap();

    assert_eq!(engine.base_state.time, seconds);
    assert_eq!(engine.base_state.resources.get(INGOT_ID), Some(ingots));
    assert_eq!(engine.base_state.resources.get(COAL_ID), Some(coal));
}

fn assert_sparse_input_stop(ore: u32, seconds: u64, stop_time: u64, ingots: u32) {
    let state = sparse_input_predictive_engine(ore).state_at(seconds).unwrap();

    assert_state_time(&state, stop_time);
    assert_eq!(state.resources.get(INGOT_ID), Some(ingots));
    assert_eq!(state.resources.get(ORE_ID), Some(0));
    assert_stop_reason(&state, Some(StopReason::InputEmpty));
}

fn assert_low_capacity_stop(output_capacity: u32, seconds: u64, stop_time: u64) {
    let state = low_capacity_debug_engine(output_capacity, 10).state_at(seconds).unwrap();

    assert_state_time(&state, stop_time);
    assert_eq!(state.resources.get(INGOT_ID), Some(output_capacity));
    assert_stop_reason(&state, Some(StopReason::OutputFull));
}

fn assert_predictive_state(
    seconds: u64,
    time: u64,
    ingots: u32,
    ore: u32,
    coal: u32,
    reason: Option<StopReason>,
) {
    let state = predictive_engine().state_at(seconds).unwrap();
    assert_state_time(&state, time);
    assert_computed_resources(&state, ingots, ore, coal);
    assert_stop_reason(&state, reason);
}

fn assert_debug_state(seconds: u64, ingots: u32, ore: u32, coal: u32) {
    let state = debug_engine(10).state_at(seconds).unwrap();
    assert_state_time(&state, seconds);
    assert_computed_resources(&state, ingots, ore, coal);
    assert_stop_reason(&state, None);
}

fn output_full_reason() -> Option<StopReason> {
    Some(StopReason::OutputFull)
}

fn no_stop_reason() -> Option<StopReason> {
    None
}

#[test]
fn it_works_600s() {
    assert_simulated_world(600, 60, 68, 24);
}

#[test]
fn it_works_640s() {
    assert_simulated_world(640, 64, 64, 24);
}

#[test]
fn test_furnace_line_debug_tick_600s() {
    assert_debug_state(600, 60, 68, 24);
}

#[test]
fn test_furnace_line_predictive_600s() {
    assert_predictive_state(600, 600, 60, 68, 24, no_stop_reason());
}

#[test]
fn test_furnace_line_predictive_640s_output_full() {
    assert_predictive_state(640, 640, 64, 64, 24, output_full_reason());
    assert_predictive_state(700, 640, 64, 64, 24, output_full_reason());
}

#[test]
fn test_predictive_matches_debug_tick() {
    assert_prediction_matches_debug(600);
}

#[test]
fn test_materialize_at_commits_state() {
    assert_materialized_state(600, 60, 24);
}

#[test]
fn test_no_negative_resources() {
    assert_sparse_input_stop(1, 600, 10, 1);
}

#[test]
fn test_system_stops_when_output_full() {
    assert_low_capacity_stop(5, 600, 60);
}
