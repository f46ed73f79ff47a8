//! Tests of the periodic sprite-flip system.

use vn_core::store::{Position, Store};
use vn_core::systems::demo::Demo;

fn store_with_sprite() -> (Store, u64) {
    let mut store = Store::new(10240, 7680);
    let e = store.create_entity();
    store.set_position(e, Position { x: 1000, y: 0, z: 0 });
    store.set_sprite(e, 42);
    (store, e)
}

#[test]
fn periodic_triggers_on_third_frame() {
    let (mut store, e) = store_with_sprite();
    store.set_delta(1000);
    let mut demo = Demo::default();

    demo.run(&mut store);
    assert_eq!(demo.timer, 1000);
    assert!(!store.is_flipped(e));

    demo.run(&mut store);
    assert_eq!(demo.timer, 2000);
    assert!(!store.is_flipped(e));

    demo.run(&mut store);
    assert_eq!(demo.timer, 0);
    assert!(store.is_flipped(e));
    assert_eq!(store.position_of(e).unwrap().x, 1000 - 25000);
}

#[test]
fn periodic_flip_alternates_direction() {
    let (mut store, e) = store_with_sprite();
    store.set_delta(2500);
    let mut demo = Demo::default();

    demo.run(&mut store);
    assert!(store.is_flipped(e));
    assert_eq!(store.position_of(e).unwrap().x, 1000 - 25000);

    demo.run(&mut store);
    assert!(!store.is_flipped(e));
    assert_eq!(store.position_of(e).unwrap().x, 1000);
}

#[test]
fn periodic_skips_entities_without_sprite() {
    let mut store = Store::new(10240, 7680);
    let bare = store.create_entity();
    store.set_position(bare, Position { x: 5, y: 6, z: 7 });
    store.set_delta(3000);
    let mut demo = Demo::default();
    demo.run(&mut store);
    assert!(!store.is_flipped(bare));
    assert_eq!(store.position_of(bare).unwrap().x, 5);
}

#[test]
fn periodic_exact_period_triggers() {
    let (mut store, e) = store_with_sprite();
    store.set_delta(2500);
    let mut demo = Demo { timer: 0 };
    demo.run(&mut store);
    assert!(store.is_flipped(e));
    assert_eq!(demo.timer, 0);
}

#[test]
fn periodic_just_below_period_waits() {
    let (mut store, e) = store_with_sprite();
    store.set_delta(2499);
    let mut demo = Demo::default();
    demo.run(&mut store);
    assert!(!store.is_flipped(e));
    assert_eq!(demo.timer, 2499);
}
