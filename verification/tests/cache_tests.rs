//! Tests of the resource cache: single construction, cheap copies.

use vn_core::sprites::Sprites;
use vn_core::store::Store;
use vn_core::ui::res::Resources;

#[test]
fn resources_fetch_twice_same_instance() {
    let mut store = Store::new(10240, 7680);
    let first = Resources::fetch(&mut store);
    let after_first = store.next_handle;
    let second = Resources::fetch(&mut store);
    assert_eq!(first, second);
    assert_eq!(store.next_handle, after_first);
}

#[test]
fn resources_handles_are_distinct() {
    let mut store = Store::new(10240, 7680);
    let r = Resources::fetch(&mut store);
    let hs = [
        r.font,
        r.adv.text_background,
        r.adv.close_background,
        r.background.menu_button,
        r.background.menu_button_hover,
        r.background.menu_button_clicked,
        r.background.menu,
    ];
    for i in 0..hs.len() {
        for j in 0..i {
            assert_ne!(hs[i], hs[j]);
        }
    }
    assert_eq!(store.next_handle, 7);
}

#[test]
fn resources_create_is_idempotent() {
    let mut store = Store::new(10240, 7680);
    Resources::create(&mut store);
    let after_first = store.ui_res;
    Resources::create(&mut store);
    assert_eq!(store.ui_res, after_first);
    assert_eq!(store.next_handle, 7);
}

#[test]
fn sprites_fetch_twice_same_instance() {
    let mut store = Store::new(10240, 7680);
    let first = Sprites::fetch(&mut store);
    let after_first = store.next_handle;
    let second = Sprites::fetch(&mut store);
    assert_eq!(first, second);
    assert_eq!(store.next_handle, after_first);
}

#[test]
fn sprites_demo_spawns_mirrored_sprite() {
    let mut store = Store::new(10240, 7680);
    let sprites = Sprites::fetch(&mut store);
    let e = sprites.demo(&mut store);
    assert!(store.is_alive(e));
    assert!(store.is_flipped(e));
    let p = store.position_of(e).unwrap();
    assert_eq!(p.x, 12500);
    assert_eq!(p.y, 15000);
    assert_eq!(store.sprite_of(e), Some(sprites.kaoru[0]));
}
