//! User-interface fixtures: cached UI resources, the widget builder, and the
//! multi-entity windows and menus built from them.
//!
//! A fixture is a small entity graph with a parent-to-children relation;
//! destroying it destroys every entity of the graph, not just the root.

pub mod builder;
pub mod res;

use vstd::prelude::*;
use vstd::string::StringExecFns;

use crate::store::{same_assets, same_meta, Anchor, Layout, Record, Store, Stretch, TextBlock};
use crate::ui::builder::{
    button_record, default_text_color, get_button_size, menu_button, ResizePolicy,
};
use crate::ui::res::Resources;

verus! {

/// The record of the menu's full-screen background.
pub open spec fn menu_background_record(res: Resources) -> Record {
    Record {
        layout: Some(
            Layout {
                x: 0,
                y: 0,
                z: 15,
                width: 10,
                height: 10,
                anchor: Anchor::Middle,
                stretch: Stretch::XY { x_margin: 0, y_margin: 0 },
                tab_order: 0,
                opaque: false,
            },
        ),
        image: Some(res.background.menu),
        ..Record::empty_spec()
    }
}

/// The record of a built menu button at offset `(x, y)` carrying `content`,
/// with its resize rule attached.
pub open spec fn menu_button_record(
    res: Resources,
    size: (i64, i64),
    x: i64,
    y: i64,
    content: String,
) -> Record {
    Record {
        resize: Some(ResizePolicy::MenuButton),
        ..button_record(
            (builder::ButtonPlan {
                text: content,
                font: res.font,
                font_size: 200,
                image: res.background.menu_button,
                anchor: Anchor::Middle,
                width: size.0,
                height: size.1,
                layer: 50,
                x,
                y,
            }),
        )
    }
}

/// The menu screen's fixture: a background and the two buttons.
pub struct Menu {
    pub background: u64,
    pub new_game_btn: u64,
    pub exit_game_btn: u64,
}

impl Menu {
    /// Builds the menu fixture: the full-screen background, the start button
    /// and the exit button, both sized from the current screen dimensions
    /// and kept in step with them by their resize rule.
    pub fn new(store: &mut Store, resources: &Resources) -> (r: Menu)
        requires
            old(store).wf(),
            old(store).next_entity + 3 <= u64::MAX,
        ensures
            final(store).wf(),
            r.background == old(store).next_entity,
            r.new_game_btn == old(store).next_entity + 1,
            r.exit_game_btn == old(store).next_entity + 2,
            !old(store).alive(r.background),
            !old(store).alive(r.new_game_btn),
            !old(store).alive(r.exit_game_btn),
            final(store).alive(r.background),
            final(store).alive(r.new_game_btn),
            final(store).alive(r.exit_game_btn),
            final(store).next_entity == old(store).next_entity + 3,
            final(store).entities@ == old(store).entities@.insert(
                r.background,
                menu_background_record(*resources),
            ).insert(
                r.new_game_btn,
                menu_button_record(
                    *resources,
                    (((old(store).screen_w as int) / 5) as i64, 1000 as i64),
                    0,
                    (-1000) as i64,
                    final(store).rec(r.new_game_btn).text.unwrap().content,
                ),
            ).insert(
                r.exit_game_btn,
                menu_button_record(
                    *resources,
                    (((old(store).screen_w as int) / 5) as i64, 1000 as i64),
                    0,
                    (-2250) as i64,
                    final(store).rec(r.exit_game_btn).text.unwrap().content,
                ),
            ),
            final(store).rec(r.new_game_btn).text is Some,
            final(store).rec(r.new_game_btn).text.unwrap().content@ == "Start"@,
            final(store).rec(r.exit_game_btn).text is Some,
            final(store).rec(r.exit_game_btn).text.unwrap().content@ == "Exit"@,
            same_assets(old(store), final(store)),
    {
        let background: u64 = store.create_entity();
        store.set_layout(
            background,
            Layout {
                x: 0,
                y: 0,
                z: 15,
                width: 10,
                height: 10,
                anchor: Anchor::Middle,
                stretch: Stretch::XY { x_margin: 0, y_margin: 0 },
                tab_order: 0,
                opaque: false,
            },
        );
        store.set_image(background, resources.background.menu);

        let screen_dimensions = (store.screen_w, store.screen_h);
        let size = get_button_size(screen_dimensions);

        let start_label = String::from_str("Start");
        let ghost start_label_v = start_label;
        let new_game_btn: u64 = menu_button("btn_new_game", start_label, resources, size)
            .with_position(0, -1000)
            .build_from_world(store);

        let exit_label = String::from_str("Exit");
        let ghost exit_label_v = exit_label;
        let exit_game_btn: u64 = menu_button("btn_exit_game", exit_label, resources, size)
            .with_position(0, -2250)
            .build_from_world(store);

        store.set_resize(new_game_btn, ResizePolicy::MenuButton);
        store.set_resize(exit_game_btn, ResizePolicy::MenuButton);

        proof {
            assert(store.entities@ =~= old(store).entities@.insert(
                background,
                menu_background_record(*resources),
            ).insert(
                new_game_btn,
                menu_button_record(
                    *resources,
                    (((old(store).screen_w as int) / 5) as i64, 1000 as i64),
                    0,
                    (-1000) as i64,
                    start_label_v,
                ),
            ).insert(
                exit_game_btn,
                menu_button_record(
                    *resources,
                    (((old(store).screen_w as int) / 5) as i64, 1000 as i64),
                    0,
                    (-2250) as i64,
                    exit_label_v,
                ),
            ));
        }
        Menu { background, new_game_btn, exit_game_btn }
    }

    /// Destroys every entity of the fixture.
    pub fn destroy(self, store: &mut Store)
        requires
            old(store).wf(),
        ensures
            final(store).wf(),
            final(store).entities@ == old(store).entities@.remove(self.background).remove(
                self.new_game_btn,
            ).remove(self.exit_game_btn),
            same_meta(old(store), final(store)),
    {
        store.delete_entity(self.background);
        store.delete_entity(self.new_game_btn);
        store.delete_entity(self.exit_game_btn);
    }
}

/// Handles on the three entities of a built text window.
#[derive(Clone, Copy, Debug, PartialEq, Eq, Structural)]
pub struct TextWindow {
    pub window: u64,
    pub text: u64,
    pub close: u64,
}

/// What toggling a window's visibility does to the entity map: the root's
/// hidden marker flips, and in lockstep the close button is clickable
/// exactly while the window shows.
pub open spec fn toggle_model(m: Map<u64, Record>, w: u64, c: u64) -> Map<u64, Record> {
    m.insert(w, (Record { hidden: !m[w].hidden, ..m[w] })).insert(
        c,
        (Record { reactive: m[w].hidden, ..m[c] }),
    )
}

/// After a toggle the two markers agree: the close button is clickable if
/// and only if the window is visible.
pub proof fn lemma_toggle_lockstep(m: Map<u64, Record>, w: u64, c: u64)
    requires
        w != c,
    ensures
        toggle_model(m, w, c)[c].reactive == !toggle_model(m, w, c)[w].hidden,
{
}

/// Toggling a window's visibility twice restores the entity map exactly,
/// provided the markers agreed to begin with: visibility and interactivity
/// are restored by any even number of toggles.
pub proof fn lemma_toggle_involutive(m: Map<u64, Record>, w: u64, c: u64)
    requires
        w != c,
        m.dom().contains(w),
        m.dom().contains(c),
        m[c].reactive == !m[w].hidden,
    ensures
        toggle_model(toggle_model(m, w, c), w, c) == m,
{
    assert(toggle_model(toggle_model(m, w, c), w, c) =~= m);
}

impl TextWindow {
    /// The size a dialogue window takes on a screen of the given dimensions:
    /// the width is left to the stretch rule, the height is a fixed fraction
    /// of the screen height.
    pub fn get_size(dimensions: (u32, u32)) -> (r: (i64, i64))
        ensures
            r.0 == 0,
            r.1 == (dimensions.1 as i64) * 100 / 384,
    {
        (0, (dimensions.1 as i64) * 100 / 384)
    }

    /// Toggles the hidden marker of the window root and, in lockstep, the
    /// interactivity marker of the close button, so that a hidden window's
    /// close button cannot be clicked.
    pub fn toggle_hide(&mut self, store: &mut Store)
        requires
            old(store).wf(),
            old(store).alive(old(self).window),
            old(store).alive(old(self).close),
            old(self).window != old(self).close,
        ensures
            *final(self) == *old(self),
            final(store).wf(),
            final(store).entities@ == toggle_model(
                old(store).entities@,
                old(self).window,
                old(self).close,
            ),
            same_meta(old(store), final(store)),
    {
        if store.is_hidden(self.window) {
            store.set_hidden(self.window, false);
            store.set_reactive(self.close, true);
        } else {
            store.set_hidden(self.window, true);
            store.set_reactive(self.close, false);
        }
        proof {
            assert(store.entities@ =~= toggle_model(
                old(store).entities@,
                old(self).window,
                old(self).close,
            ));
        }
    }
}

/// The in-game screen's fixture: the dialogue text window.
pub struct Adv {
    pub text: TextWindow,
}

/// The record of the dialogue window root.
pub open spec fn adv_window_record(res: Resources) -> Record {
    Record {
        layout: Some(
            Layout {
                x: 0,
                y: 1100,
                z: 10,
                width: 0,
                height: 2000,
                anchor: Anchor::BottomMiddle,
                stretch: Stretch::X { x_margin: 100 },
                tab_order: 0,
                opaque: false,
            },
        ),
        image: Some(res.adv.text_background),
        resize: Some(ResizePolicy::DialogWindow),
        ..Record::empty_spec()
    }
}

/// The record of the dialogue window's text child.
pub open spec fn adv_text_record(res: Resources, window: u64, content: String) -> Record {
    Record {
        layout: Some(
            Layout {
                x: 0,
                y: 0,
                z: 30,
                width: 0,
                height: 0,
                anchor: Anchor::Middle,
                stretch: Stretch::XY { x_margin: 100, y_margin: 100 },
                tab_order: 1,
                opaque: false,
            },
        ),
        text: Some(
            TextBlock { content, color: default_text_color(), font: res.font, font_size: 400 },
        ),
        parent: Some(window),
        ..Record::empty_spec()
    }
}

/// The record of the dialogue window's close button.
pub open spec fn adv_close_record(res: Resources, window: u64, label: String) -> Record {
    Record {
        layout: Some(
            Layout {
                x: (-200) as i64,
                y: (-200) as i64,
                z: 2010,
                width: 500,
                height: 500,
                anchor: Anchor::TopRight,
                stretch: Stretch::NoStretch,
                tab_order: 0,
                opaque: false,
            },
        ),
        image: Some(res.adv.close_background),
        text: Some(
            TextBlock { content: label, color: default_text_color(), font: res.font, font_size: 300 },
        ),
        parent: Some(window),
        reactive: true,
        ..Record::empty_spec()
    }
}

impl Adv {
    /// Builds the dialogue window fixture.
    pub fn new(store: &mut Store, resources: &Resources) -> (r: Adv)
        requires
            old(store).wf(),
            old(store).next_entity + 3 <= u64::MAX,
        ensures
            final(store).wf(),
            r.text.window == old(store).next_entity,
            r.text.text == old(store).next_entity + 1,
            r.text.close == old(store).next_entity + 2,
            !old(store).alive(r.text.window),
            !old(store).alive(r.text.text),
            !old(store).alive(r.text.close),
            final(store).alive(r.text.window),
            final(store).alive(r.text.text),
            final(store).alive(r.text.close),
            final(store).next_entity == old(store).next_entity + 3,
            final(store).entities@ == old(store).entities@.insert(
                r.text.window,
                adv_window_record(*resources),
            ).insert(
                r.text.text,
                adv_text_record(
                    *resources,
                    r.text.window,
                    final(store).rec(r.text.text).text.unwrap().content,
                ),
            ).insert(
                r.text.close,
                adv_close_record(
                    *resources,
                    r.text.window,
                    final(store).rec(r.text.close).text.unwrap().content,
                ),
            ),
            final(store).rec(r.text.text).text is Some,
            final(store).rec(r.text.text).text.unwrap().content@ == "Text example"@,
            final(store).rec(r.text.close).text is Some,
            final(store).rec(r.text.close).text.unwrap().content@ == "X"@,
            same_assets(old(store), final(store)),
    {
        let text = builder::TextWindow::default().name(String::from_str("adv_text")).text(
            String::from_str("Text example"),
        ).font(resources.font, 400).position(Some(0), Some(1100), None).width(0).height(
            2000,
        ).anchor(Anchor::BottomMiddle).background(resources.adv.text_background).stretch(
            Stretch::X { x_margin: 100 },
        ).resize(ResizePolicy::DialogWindow).close_background(
            resources.adv.close_background,
        ).build(store);

        proof {
            assert(store.entities@ =~= old(store).entities@.insert(
                text.window,
                adv_window_record(*resources),
            ).insert(
                text.text,
                adv_text_record(*resources, text.window, store.rec(text.text).text.unwrap().content),
            ).insert(
                text.close,
                adv_close_record(
                    *resources,
                    text.window,
                    store.rec(text.close).text.unwrap().content,
                ),
            ));
        }
        Adv { text }
    }

    /// Destroys every entity of the fixture: the window root, its text child
    /// and its close button.
    pub fn destroy(self, store: &mut Store)
        requires
            old(store).wf(),
        ensures
            final(store).wf(),
            final(store).entities@ == old(store).entities@.remove(self.text.window).remove(
                self.text.text,
            ).remove(self.text.close),
            same_meta(old(store), final(store)),
    {
        store.delete_entity(self.text.window);
        store.delete_entity(self.text.text);
        store.delete_entity(self.text.close);
    }
}

} // verus!
