//! Tests of the widget builder, the menu fixture and the layout formulas.

use vn_core::store::{Anchor, Store, Stretch};
use vn_core::ui::builder::{
    apply_policy, get_button_size, resize_button, ResizePolicy, TextWindow as WindowBuilder,
};
use vn_core::ui::res::Resources;
use vn_core::ui::{Menu, TextWindow};

#[test]
fn button_size_is_fifth_of_width() {
    assert_eq!(get_button_size((10240, 7680)), (2048, 1000));
    assert_eq!(get_button_size((0, 100)), (0, 1000));
    assert_eq!(get_button_size((7, 1)), (1, 1000));
}

#[test]
fn dialogue_size_is_fraction_of_height() {
    assert_eq!(TextWindow::get_size((10240, 7680)), (0, 7680 * 100 / 384));
    assert_eq!(TextWindow::get_size((10240, 7680)).1, 2000);
    assert_eq!(TextWindow::get_size((0, 0)), (0, 0));
}

#[test]
fn resize_policies_recompute_layouts() {
    let mut store = Store::new(10240, 7680);
    let e = store.create_entity();
    let l0 = vn_core::store::Layout {
        x: 3,
        y: 4,
        z: 5,
        width: 6,
        height: 7,
        anchor: Anchor::Middle,
        stretch: Stretch::NoStretch,
        tab_order: 0,
        opaque: false,
    };
    store.set_layout(e, l0);
    let l1 = apply_policy(ResizePolicy::MenuButton, l0, 500, 600);
    assert_eq!(l1.width, 100);
    assert_eq!(l1.height, 1000);
    assert_eq!(l1.x, 3);

    let l2 = apply_policy(ResizePolicy::DialogWindow, l0, 500, 7680);
    assert_eq!(l2.height, 7680 * 100 / 384);
    assert_eq!(l2.y, 7680 * 1000 / 6981);
    assert_eq!(l2.width, 6);
}

#[test]
fn resize_button_matches_policy() {
    let mut l = vn_core::store::Layout {
        x: 0,
        y: 0,
        z: 0,
        width: 1,
        height: 2,
        anchor: Anchor::TopLeft,
        stretch: Stretch::NoStretch,
        tab_order: 0,
        opaque: false,
    };
    resize_button(&mut l, (10240, 7680));
    assert_eq!(l.width, 2048);
    assert_eq!(l.height, 1000);
}

#[test]
fn window_builder_builds_three_entities() {
    let mut store = Store::new(10240, 7680);
    let res = Resources::fetch(&mut store);
    let handles = WindowBuilder::default()
        .name("a_window".to_string())
        .text("hello".to_string())
        .font(res.font, 400)
        .position(Some(0), Some(1100), None)
        .width(0)
        .height(2000)
        .anchor(Anchor::BottomMiddle)
        .background(res.adv.text_background)
        .stretch(Stretch::X { x_margin: 100 })
        .resize(ResizePolicy::DialogWindow)
        .close_background(res.adv.close_background)
        .build(&mut store);

    assert_eq!(store.entity_count(), 3);
    let w = store.layout_of(handles.window).unwrap();
    assert_eq!((w.x, w.y, w.z), (0, 1100, 10));
    assert_eq!((w.width, w.height), (0, 2000));
    assert_eq!(w.anchor, Anchor::BottomMiddle);
    assert_eq!(w.stretch, Stretch::X { x_margin: 100 });
    assert_eq!(store.image_of(handles.window), Some(res.adv.text_background));
    assert_eq!(store.resize_of(handles.window), Some(ResizePolicy::DialogWindow));

    let t = store.text_of(handles.text).expect("text child carries text");
    assert_eq!(t.content, "hello");
    assert_eq!(t.font, res.font);
    assert_eq!(t.font_size, 400);
    assert_eq!(store.parent_of(handles.text), Some(handles.window));
    let tl = store.layout_of(handles.text).unwrap();
    assert_eq!(tl.z, 30, "the text draws above the window");

    assert_eq!(store.parent_of(handles.close), Some(handles.window));
    assert!(store.is_reactive(handles.close));
    assert_eq!(store.image_of(handles.close), Some(res.adv.close_background));
    let ct = store.text_of(handles.close).unwrap();
    assert_eq!(ct.content, "X");
    let cl = store.layout_of(handles.close).unwrap();
    assert_eq!((cl.width, cl.height), (500, 500));
    assert_eq!(cl.anchor, Anchor::TopRight);
    assert_eq!(cl.z, 2010, "the close button draws far above the window");
}

#[test]
fn window_builder_defaults_to_empty_text() {
    let mut store = Store::new(10240, 7680);
    let res = Resources::fetch(&mut store);
    let handles = WindowBuilder::default()
        .font(res.font, 320)
        .background(res.adv.text_background)
        .close_background(res.adv.close_background)
        .build(&mut store);
    let t = store.text_of(handles.text).unwrap();
    assert_eq!(t.content, "");
}

#[test]
fn dialogue_fixture_destroys_all_three_entities() {
    let mut store = Store::new(10240, 7680);
    let res = Resources::fetch(&mut store);
    let adv = vn_core::ui::Adv::new(&mut store, &res);
    assert_eq!(store.entity_count(), 3);
    let t = store.text_of(adv.text.text).unwrap();
    assert_eq!(t.content, "Text example");
    adv.destroy(&mut store);
    assert_eq!(store.entity_count(), 0, "the close button is destroyed with the window");
}

#[test]
fn window_builder_text_color_overrides_default() {
    let mut store = Store::new(10240, 7680);
    let res = Resources::fetch(&mut store);
    let color = vn_core::store::Color { r: 10, g: 20, b: 30, a: 10 };
    let handles = WindowBuilder::default()
        .font(res.font, 320)
        .text_color(color)
        .background(res.adv.text_background)
        .close_background(res.adv.close_background)
        .build(&mut store);
    assert_eq!(store.text_of(handles.text).unwrap().color, color);
}

#[test]
fn menu_fixture_builds_buttons_from_screen() {
    let mut store = Store::new(10240, 7680);
    let res = Resources::fetch(&mut store);
    let menu = Menu::new(&mut store, &res);
    assert_eq!(store.entity_count(), 3);

    assert_eq!(store.image_of(menu.background), Some(res.background.menu));
    let start = store.text_of(menu.new_game_btn).unwrap();
    assert_eq!(start.content, "Start");
    let exit = store.text_of(menu.exit_game_btn).unwrap();
    assert_eq!(exit.content, "Exit");

    let bl = store.layout_of(menu.new_game_btn).unwrap();
    assert_eq!(bl.width, 10240 / 5);
    assert_eq!(bl.height, 1000);
    assert_eq!(bl.y, -1000);
    let el = store.layout_of(menu.exit_game_btn).unwrap();
    assert_eq!(el.y, -2250);
    assert!(store.is_reactive(menu.new_game_btn));
    assert_eq!(store.resize_of(menu.new_game_btn), Some(ResizePolicy::MenuButton));

    menu.destroy(&mut store);
    assert_eq!(store.entity_count(), 0);
}
