use liminality::id_map::IdMap;
use liminality::model::dto::{Resource, WorldModel};
use liminality::model::error::ModelError;
use liminality::model::filter::{GateExpr, ResourceFilter};
use liminality::model::id::{NodeId, ResourceId, SpaceId};
use liminality::model::resource::{Amount, ResourceLedger};
use liminality::model::space::SpacePos;
use liminality::model::time::SimTime;

fn rid(s: &str) -> ResourceId {
    ResourceId::new(s)
}

#[test]
fn demo_world() {
    let w = WorldModel::furnace_line_demo();
    assert_eq!(w.coal_storage, 32);
    assert_eq!(w.ore_storage, 128);
    assert_eq!(w.output_storage, 0);
}

#[test]
fn ledger_add_and_get() {
    let mut ledger = ResourceLedger::new();
    assert_eq!(ledger.get_amount(&rid("ore")), Amount(0));
    assert_eq!(ledger.add_amount(rid("ore"), Amount(5)), Ok(()));
    assert_eq!(ledger.add_amount(rid("ore"), Amount(7)), Ok(()));
    assert_eq!(ledger.add_amount(rid("coal"), Amount(3)), Ok(()));
    assert_eq!(ledger.get_amount(&rid("ore")), Amount(12));
    assert_eq!(ledger.get_amount(&rid("coal")), Amount(3));
    assert_eq!(ledger.total_amount(), Amount(15));
}

#[test]
fn ledger_zero_amounts_change_nothing() {
    let mut ledger = ResourceLedger::with_capacity(0);
    assert_eq!(ledger.add_amount(rid("ore"), Amount(0)), Ok(()));
    assert_eq!(ledger.subtract_amount(&rid("ore"), Amount(0)), Ok(()));
    assert!(!ledger.contents.contains_key("ore"));
    assert_eq!(ledger, ResourceLedger::with_capacity(0));
}

#[test]
fn ledger_capacity_exceeded() {
    let mut ledger = ResourceLedger::with_capacity(10);
    assert_eq!(ledger.add_amount(rid("ore"), Amount(6)), Ok(()));
    let err = ledger.add_amount(rid("coal"), Amount(5));
    assert_eq!(
        err,
        Err(ModelError::CapacityExceeded { resource: rid("coal"), attempted: 5, available: 4 })
    );
    assert_eq!(ledger.get_amount(&rid("coal")), Amount(0));
    assert_eq!(ledger.add_amount(rid("coal"), Amount(4)), Ok(()));
    assert_eq!(ledger.total_amount(), Amount(10));
}

#[test]
fn ledger_insufficient_resources() {
    let mut ledger = ResourceLedger::default();
    ledger.add_amount(rid("ore"), Amount(2)).unwrap();
    assert_eq!(
        ledger.subtract_amount(&rid("ore"), Amount(3)),
        Err(ModelError::InsufficientResources { resource: rid("ore"), requested: 3, available: 2 })
    );
    assert_eq!(
        ledger.subtract_amount(&rid("gold"), Amount(1)),
        Err(ModelError::InsufficientResources { resource: rid("gold"), requested: 1, available: 0 })
    );
    assert_eq!(ledger.get_amount(&rid("ore")), Amount(2));
}

#[test]
fn ledger_subtract_to_zero_removes_entry() {
    let mut ledger = ResourceLedger::new();
    ledger.add_amount(rid("ore"), Amount(4)).unwrap();
    assert_eq!(ledger.subtract_amount(&rid("ore"), Amount(1)), Ok(()));
    assert_eq!(ledger.get_amount(&rid("ore")), Amount(3));
    assert_eq!(ledger.subtract_amount(&rid("ore"), Amount(3)), Ok(()));
    assert!(!ledger.contents.contains_key("ore"));
    assert_eq!(ledger.total_amount(), Amount(0));
}

#[test]
fn ledger_take_undoes_add() {
    let mut ledger = ResourceLedger::new();
    ledger.add_amount(rid("ore"), Amount(9)).unwrap();
    let before = ledger.clone();
    ledger.add_amount(rid("ore"), Amount(4)).unwrap();
    ledger.subtract_amount(&rid("ore"), Amount(4)).unwrap();
    assert_eq!(ledger, before);
    ledger.add_amount(rid("coal"), Amount(2)).unwrap();
    ledger.subtract_amount(&rid("coal"), Amount(2)).unwrap();
    assert_eq!(ledger, before);
}

#[test]
fn filter_matches() {
    assert!(ResourceFilter::Any.matches(&rid("ore")));
    assert!(ResourceFilter::Exact(rid("ore")).matches(&rid("ore")));
    assert!(!ResourceFilter::Exact(rid("ore")).matches(&rid("coal")));
    let one_of = ResourceFilter::OneOf(vec![rid("coal"), rid("ore")]);
    assert!(one_of.matches(&rid("ore")));
    assert!(!one_of.matches(&rid("gold")));
    assert!(!ResourceFilter::OneOf(vec![]).matches(&rid("ore")));
    assert!(!ResourceFilter::Nothing.matches(&rid("ore")));
}

#[test]
fn gate_expr_clone() {
    let g = GateExpr::And(
        Box::new(GateExpr::ResourceAtLeast(rid("ore"), Amount(3))),
        Box::new(GateExpr::Not(Box::new(GateExpr::ResourceBelow(rid("coal"), Amount(1))))),
    );
    assert_eq!(g.clone(), g);
}

#[test]
fn sim_time_advances() {
    let mut t = SimTime::new(5);
    t.advance(10);
    assert_eq!(t, SimTime(15));
    t.advance(0);
    assert_eq!(t.0, 15);
    let mut a = SimTime::new(5);
    a.advance(4);
    a.advance(6);
    assert_eq!(a, t);
}

#[test]
fn ids_and_positions() {
    assert_eq!(NodeId::new("n1"), NodeId::from("n1".to_string()));
    let pos = SpacePos::new(SpaceId::new("overworld"), 1, -2, 3);
    assert_eq!(pos.w, SpaceId("overworld".to_string()));
    assert_eq!((pos.x, pos.y, pos.z), (1, -2, 3));
    let r = Resource { id: "ore".to_string(), quantity: 4 };
    assert_eq!(r.clone(), r);
}

#[test]
fn id_map_operations() {
    let mut m: IdMap<u32> = IdMap::new();
    assert_eq!(m.len(), 0);
    m.insert("a".to_string(), 1);
    m.insert("b".to_string(), 2);
    m.insert("a".to_string(), 3);
    assert_eq!(m.len(), 2);
    assert_eq!(m.get("a"), Some(3));
    assert_eq!(m.get("c"), None);
    assert_eq!(m.remove(&"b".to_string()), Some(2));
    assert_eq!(m.remove(&"b".to_string()), None);
    assert!(!m.contains_key("b"));
    let mut other: IdMap<u32> = IdMap::new();
    other.insert("a".to_string(), 3);
    assert_eq!(m, other);
    other.insert("z".to_string(), 0);
    assert_ne!(m, other);
}

#[test]
fn id_map_slots_list_every_entry() {
    let mut m: IdMap<u32> = IdMap::new();
    m.insert("ore".to_string(), 7);
    m.insert("coal".to_string(), 9);
    let mut seen: Vec<(String, u32)> = Vec::new();
    for i in 0..m.len() {
        seen.push((m.key_at(i), m.value_at(i)));
    }
    seen.sort();
    assert_eq!(seen, vec![("coal".to_string(), 9), ("ore".to_string(), 7)]);
}

#[test]
fn id_map_equality_ignores_order() {
    let mut x: IdMap<u32> = IdMap::new();
    x.insert("a".to_string(), 1);
    x.insert("b".to_string(), 2);
    let mut y: IdMap<u32> = IdMap::new();
    y.insert("b".to_string(), 2);
    y.insert("a".to_string(), 1);
    assert_eq!(x, y);
    assert_eq!(x.clone(), y);
    y.insert("a".to_string(), 5);
    assert_ne!(x, y);
}

#[test]
fn model_error_messages() {
    let e = ModelError::CapacityExceeded { resource: rid("coal"), attempted: 5, available: 40 };
    assert_eq!(
        e.message(),
        "Capacity exceeded when adding resource ResourceId(\"coal\"): attempted to add 5, but only 40 space available"
    );
    let e = ModelError::InsufficientResources {
        resource: ResourceId::from("iron \"ore\""),
        requested: 1234567890,
        available: 0,
    };
    assert_eq!(
        e.message(),
        "Insufficient resources for ResourceId(\"iron \\\"ore\\\"\"): requested 1234567890, but only 0 available"
    );
}

#[test]
fn ids_from_str() {
    assert_eq!(ResourceId::from("ore"), rid("ore"));
    assert_eq!(NodeId::from("n"), NodeId("n".to_string()));
    assert_eq!(SpaceId::from("s").0, "s");
}

#[test]
fn advance_is_additive() {
    let mut a = SimTime::new(1);
    a.advance(2);
    a.advance(3);
    let mut b = SimTime::new(1);
    b.advance(5);
    assert_eq!(a, b);
}
