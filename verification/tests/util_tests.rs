//! Tests of the store primitives, the camera, the random ranges and the
//! small utility traits.

use vn_core::camera::Camera;
use vn_core::graphics::Sprite;
use vn_core::random::{range, range_inclusive};
use vn_core::store::Store;
use vn_core::utils::{AssignOptionIf, ResultExt};

#[test]
fn store_creates_and_destroys_entities() {
    let mut store = Store::new(10240, 7680);
    let a = store.create_entity();
    let b = store.create_entity();
    assert_ne!(a, b);
    assert!(store.is_alive(a));
    assert!(store.is_alive(b));
    assert_eq!(store.entity_count(), 2);
    store.delete_entity(a);
    assert!(!store.is_alive(a));
    assert!(store.is_alive(b));
    assert_eq!(store.entity_count(), 1);
    store.delete_entity(a);
    assert_eq!(store.entity_count(), 1, "destroying a dead entity is a no-op");
}

#[test]
fn store_component_absence_is_queryable() {
    let mut store = Store::new(10240, 7680);
    let e = store.create_entity();
    assert_eq!(store.layout_of(e), None);
    assert_eq!(store.image_of(e), None);
    assert!(!store.is_hidden(e));
    assert!(!store.is_reactive(e));
    assert_eq!(store.parent_of(e), None);
    assert_eq!(store.position_of(9999), None, "a dead entity has no components");
}

#[test]
fn camera_owns_one_entity() {
    let mut store = Store::new(10240, 7680);
    let cam = Camera::new(&mut store);
    assert!(store.is_alive(cam.inner));
    let p = store.position_of(cam.inner).unwrap();
    assert_eq!(p.z, 1000);
    cam.destroy(&mut store);
    assert_eq!(store.entity_count(), 0);
}

#[test]
fn random_range_stays_in_bounds() {
    for _ in 0..100 {
        let v = range(10, 20);
        assert!((10..20).contains(&v));
    }
    assert_eq!(range(7, 8), 7, "a single-value range has one outcome");
}

#[test]
fn random_range_inclusive_stays_in_bounds() {
    for _ in 0..100 {
        let v = range_inclusive(10, 20);
        assert!((10..=20).contains(&v));
    }
    assert_eq!(range_inclusive(5, 5), 5, "a degenerate range has one outcome");
}

#[test]
fn assign_if_overwrites_only_on_some() {
    let mut x: i64 = 1;
    x.assign_if(None);
    assert_eq!(x, 1);
    x.assign_if(Some(9));
    assert_eq!(x, 9);
}

#[test]
fn result_ext_unwraps_the_present_variant() {
    let ok: Result<u32, &str> = Ok(5);
    assert_eq!(ok.unreach_err(), 5);
    let err: Result<u32, &str> = Err("boom");
    assert_eq!(err.unreach_ok(), "boom");
}

#[test]
fn sprite_paths_carry_through() {
    let s = Sprite::Path("assets/sprites/BloodyChronicles/Kaoru1.png");
    assert_eq!(s.path(), "assets/sprites/BloodyChronicles/Kaoru1.png");
}
