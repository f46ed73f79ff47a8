//! Tests of the two-track dispatcher: compilation order, failure modes, and
//! frame dispatch.

use vn_core::schedule::{
    Adv, Base, Bundle, CompiledTrack, GameDataBuilder, Routine, ScheduleError, SysDecl,
    TrackBuilder,
};
use vn_core::store::Store;
use vn_core::systems::demo::Demo;

fn pos(track: &CompiledTrack, id: u64) -> usize {
    for (i, d) in track.order.iter().enumerate() {
        if d.id == id {
            return i;
        }
    }
    panic!("system {} not placed", id);
}

#[test]
fn compile_orders_dependencies() {
    let mut t = TrackBuilder::new();
    t.add(Routine::External, 10, vec![]);
    t.add(Routine::External, 12, vec![10, 11]);
    t.add(Routine::External, 11, vec![10]);
    let compiled = t.compile().expect("acyclic track must compile");
    assert_eq!(compiled.order.len(), 3);
    assert!(pos(&compiled, 10) < pos(&compiled, 11));
    assert!(pos(&compiled, 11) < pos(&compiled, 12));
    assert!(pos(&compiled, 10) < pos(&compiled, 12));
}

#[test]
fn compile_empty_track() {
    let t = TrackBuilder::new();
    let compiled = t.compile().expect("empty track must compile");
    assert_eq!(compiled.order.len(), 0);
}

#[test]
fn compile_rejects_unknown_dependency() {
    let mut t = TrackBuilder::new();
    t.add(Routine::External, 1, vec![99]);
    assert_eq!(t.compile().unwrap_err(), ScheduleError::UnknownDependency(99));
}

#[test]
fn compile_rejects_cycle() {
    let mut t = TrackBuilder::new();
    t.add(Routine::External, 1, vec![2]);
    t.add(Routine::External, 2, vec![1]);
    assert_eq!(t.compile().unwrap_err(), ScheduleError::CyclicDependency);
}

#[test]
fn compile_rejects_self_cycle() {
    let mut t = TrackBuilder::new();
    t.add(Routine::External, 7, vec![7]);
    assert_eq!(t.compile().unwrap_err(), ScheduleError::CyclicDependency);
}

#[test]
fn compile_long_chain() {
    let mut t = TrackBuilder::new();
    t.add(Routine::External, 5, vec![4]);
    t.add(Routine::External, 3, vec![2]);
    t.add(Routine::External, 1, vec![]);
    t.add(Routine::External, 4, vec![3]);
    t.add(Routine::External, 2, vec![1]);
    let compiled = t.compile().expect("chain must compile");
    for id in 1..5u64 {
        assert!(pos(&compiled, id) < pos(&compiled, id + 1));
    }
}

#[test]
fn builder_routes_tracks() {
    let b = GameDataBuilder::new();
    let b = b.with(Base, Routine::External, 1, vec![]);
    let b = b.with(Adv, Routine::External, 2, vec![]);
    assert_eq!(b.basic.systems.len(), 1);
    assert_eq!(b.adv.systems.len(), 1);
    assert_eq!(b.basic.systems[0].id, 1);
    assert_eq!(b.adv.systems[0].id, 2);
}

#[test]
fn builder_bundle_appends() {
    let b = GameDataBuilder::new().with(Base, Routine::External, 1, vec![]);
    let bundle = Bundle {
        systems: vec![
            SysDecl { id: 2, deps: vec![1], routine: Routine::External },
            SysDecl { id: 3, deps: vec![2], routine: Routine::External },
        ],
    };
    let b = b.with_bundle(Base, bundle).expect("bundle registers");
    assert_eq!(b.basic.systems.len(), 3);
    let data = b.build().expect("acyclic tracks must compile");
    assert!(pos(&data.basic, 1) < pos(&data.basic, 2));
    assert!(pos(&data.basic, 2) < pos(&data.basic, 3));
}

#[test]
fn build_fails_on_cyclic_track() {
    let b = GameDataBuilder::new()
        .with(Base, Routine::External, 1, vec![])
        .with(Adv, Routine::External, 2, vec![3])
        .with(Adv, Routine::External, 3, vec![2]);
    assert_eq!(b.build().unwrap_err(), ScheduleError::CyclicDependency);
}

#[test]
fn dispatch_runs_gameplay_system() {
    let mut t = TrackBuilder::new();
    t.add(Routine::Gameplay(Demo::default()), 2, vec![]);
    let mut compiled = t.compile().expect("track compiles");

    let mut store = Store::new(10240, 7680);
    let e = store.create_entity();
    store.set_position(e, vn_core::store::Position { x: 0, y: 0, z: 0 });
    store.set_sprite(e, 77);
    store.set_delta(2500);

    compiled.dispatch(&mut store);
    assert!(store.is_flipped(e));
    assert_eq!(store.position_of(e).unwrap().x, -25000);
    match compiled.order[0].routine {
        Routine::Gameplay(d) => assert_eq!(d.timer, 0),
        Routine::External => panic!("routine kind changed"),
    }
}

#[test]
fn dispatch_external_leaves_store() {
    let mut t = TrackBuilder::new();
    t.add(Routine::External, 9, vec![]);
    let mut compiled = t.compile().expect("track compiles");
    let mut store = Store::new(10240, 7680);
    let e = store.create_entity();
    store.set_delta(5000);
    compiled.dispatch(&mut store);
    assert!(store.is_alive(e));
    assert_eq!(store.entity_count(), 1);
}
