//! The declarative widget builder: a fluent configuration object for a text
//! window, the menu-button plan, and the pure resize policies that widgets
//! carry.

use vstd::prelude::*;
use vstd::string::StringExecFns;

use crate::store::{same_assets, Anchor, Color, Layout, Record, Store, Stretch, TextBlock};
use crate::ui::res::Resources;
use crate::utils::AssignOptionIf;

verus! {

/// Default draw layer of a text window, in tenths.
pub const DEFAULT_Z: i64 = 10;

/// A pure per-resize rule: from the new screen dimensions it recomputes parts
/// of a widget's layout.  It stands for the resize callback a widget carries;
/// the layout pass applies it whenever the window dimensions change.
#[derive(Clone, Copy, Debug, PartialEq, Eq, Structural)]
pub enum ResizePolicy {
    /// Menu buttons track a fifth of the screen width at fixed height.
    MenuButton,
    /// The dialogue window tracks a fixed fraction of the screen height.
    DialogWindow,
}

/// The default text colour.
pub open spec fn default_text_color() -> Color {
    Color { r: 1280, g: 1280, b: 1280, a: 10 }
}

/// Builds the default text colour.
pub fn make_text_color() -> (c: Color)
    ensures
        c == default_text_color(),
{
    Color { r: 1280, g: 1280, b: 1280, a: 10 }
}

/// What a policy computes from the current screen dimensions.
pub open spec fn apply_policy_spec(p: ResizePolicy, l: Layout, w: u32, h: u32) -> Layout {
    match p {
        ResizePolicy::MenuButton => Layout { width: ((w as int) / 5) as i64, height: 1000, ..l },
        ResizePolicy::DialogWindow => Layout {
            height: ((h as int) * 100 / 384) as i64,
            y: ((h as int) * 1000 / 6981) as i64,
            ..l
        },
    }
}

/// Applies a resize policy to a layout.
pub fn apply_policy(p: ResizePolicy, l: Layout, w: u32, h: u32) -> (r: Layout)
    ensures
        r == apply_policy_spec(p, l, w, h),
{
    match p {
        ResizePolicy::MenuButton => Layout { width: (w as i64) / 5, height: 1000, ..l },
        ResizePolicy::DialogWindow => Layout {
            height: (h as i64) * 100 / 384,
            y: (h as i64) * 1000 / 6981,
            ..l
        },
    }
}

/// The size of a menu button for the given screen dimensions: a fifth of the
/// width, at fixed height.
pub fn get_button_size(dimensions: (u32, u32)) -> (r: (i64, i64))
    ensures
        r.0 == dimensions.0 as i64 / 5,
        r.1 == 1000,
{
    ((dimensions.0 as i64) / 5, 1000)
}

/// Recomputes a menu button's layout from new screen dimensions.
pub fn resize_button(transform: &mut Layout, dimensions: (u32, u32))
    ensures
        *final(transform) == apply_policy_spec(
            ResizePolicy::MenuButton,
            *old(transform),
            dimensions.0,
            dimensions.1,
        ),
{
    let new_dimensions = get_button_size(dimensions);
    transform.width = new_dimensions.0;
    transform.height = new_dimensions.1;
}

/// What the layout pass does to one record when the screen dimensions
/// change: widgets carrying a resize rule have it applied to their layout;
/// everything else is untouched.
pub open spec fn resize_record(r: Record, w: u32, h: u32) -> Record {
    if r.resize is Some && r.layout is Some {
        Record { layout: Some(apply_policy_spec(r.resize.unwrap(), r.layout.unwrap(), w, h)), ..r }
    } else {
        r
    }
}

/// The layout pass after a change of screen dimensions: applies every
/// widget's resize rule to its layout, against the dimensions the store
/// currently records.
pub fn apply_resize(store: &mut Store)
    requires
        old(store).wf(),
    ensures
        final(store).wf(),
        final(store).entities@.dom() == old(store).entities@.dom(),
        forall|e: u64|
            old(store).entities@.dom().contains(e) ==> final(store).entities@[e] == resize_record(
                #[trigger] old(store).entities@[e],
                old(store).screen_w,
                old(store).screen_h,
            ),
        crate::store::same_meta(old(store), final(store)),
{
    let w: u32 = store.screen_w;
    let h: u32 = store.screen_h;
    let ghost s_old = store.entities.entries@;
    let n: usize = store.entities.len();
    let mut i: usize = 0;
    while i < n
        invariant
            store.entities.wf(),
            n == store.entities.entries@.len(),
            s_old.len() == n,
            i <= n,
            w == old(store).screen_w,
            h == old(store).screen_h,
            forall|j: int| i <= j < n ==> #[trigger] store.entities.entries@[j] == s_old[j],
            forall|j: int|
                0 <= j < i ==> (#[trigger] store.entities.entries@[j]).0 == s_old[j].0
                    && store.entities.entries@[j].1 == resize_record(s_old[j].1, w, h),
            store.next_entity == old(store).next_entity,
            store.next_handle == old(store).next_handle,
            store.delta == old(store).delta,
            store.screen_w == old(store).screen_w,
            store.screen_h == old(store).screen_h,
            store.ui_res == old(store).ui_res,
            store.sprites_res == old(store).sprites_res,
            forall|e: u64| #[trigger]
                store.entities@.dom().contains(e) ==> e < store.next_entity,
        decreases n - i,
    {
        let ghost s_pre = store.entities.entries@;
        let ghost m_pre = store.entities@;
        proof {
            crate::table::lemma_entries_index(s_pre, i as int);
        }
        let (k, mut rec) = store.entities.remove_at(i);
        if rec.resize.is_some() && rec.layout.is_some() {
            let policy = rec.resize.unwrap();
            let l = match rec.layout {
                Some(l) => l,
                None => unreached(),
            };
            rec.layout = Some(apply_policy(policy, l, w, h));
            rec.resize = Some(policy);
        }
        store.entities.insert_at(i, k, rec);
        proof {
            assert(store.entities.entries@ =~= s_pre.update(
                i as int,
                (k, resize_record(s_pre[i as int].1, w, h)),
            ));
            assert(store.entities@.dom() =~= m_pre.dom());
        }
        i = i + 1;
    }
    proof {
        let s_new = store.entities.entries@;
        crate::table::lemma_entries_dom(s_old);
        crate::table::lemma_entries_dom(s_new);
        assert forall|e: u64| #[trigger]
            store.entities@.dom().contains(e) implies old(store).entities@.dom().contains(e) by {
            let j = choose|j: int| 0 <= j < s_new.len() && (#[trigger] s_new[j]).0 == e;
            assert(s_old[j].0 == e);
            assert(crate::table::has_key(s_old, e));
        }
        assert forall|e: u64| #[trigger]
            old(store).entities@.dom().contains(e) implies store.entities@.dom().contains(e) by {
            let j = choose|j: int| 0 <= j < s_old.len() && (#[trigger] s_old[j]).0 == e;
            assert(s_new[j].0 == e);
            assert(crate::table::has_key(s_new, e));
        }
        assert(store.entities@.dom() =~= old(store).entities@.dom());
        assert forall|e: u64|
            old(store).entities@.dom().contains(e) implies store.entities@[e] == resize_record(
            #[trigger] old(store).entities@[e],
            old(store).screen_w,
            old(store).screen_h,
        ) by {
            let j = choose|j: int| 0 <= j < s_old.len() && (#[trigger] s_old[j]).0 == e;
            crate::table::lemma_entries_index(s_old, j);
            crate::table::lemma_entries_index(s_new, j);
        }
    }
}

/// A configured menu button, ready to be built into an entity.
pub struct ButtonPlan {
    pub text: String,
    pub font: u64,
    pub font_size: i64,
    pub image: u64,
    pub anchor: Anchor,
    pub width: i64,
    pub height: i64,
    pub layer: i64,
    pub x: i64,
    pub y: i64,
}

/// The record a built button entity carries.
pub open spec fn button_record(p: ButtonPlan) -> Record {
    Record {
        layout: Some(
            Layout {
                x: p.x,
                y: p.y,
                z: p.layer,
                width: p.width,
                height: p.height,
                anchor: p.anchor,
                stretch: Stretch::NoStretch,
                tab_order: 0,
                opaque: false,
            },
        ),
        image: Some(p.image),
        text: Some(
            TextBlock {
                content: p.text,
                color: default_text_color(),
                font: p.font,
                font_size: p.font_size,
            },
        ),
        reactive: true,
        ..Record::empty_spec()
    }
}

/// Creates the common menu-button plan: centred, drawn above the background,
/// labelled with the given text.  The widget identifier only names the button
/// for the host's diagnostics.
pub fn menu_button(_name: &str, text: String, resources: &Resources, size: (i64, i64)) -> (r:
    ButtonPlan)
    ensures
        r.text == text,
        r.font == resources.font,
        r.font_size == 200,
        r.image == resources.background.menu_button,
        r.anchor == Anchor::Middle,
        r.width == size.0,
        r.height == size.1,
        r.layer == 50,
        r.x == 0,
        r.y == 0,
{
    ButtonPlan {
        text,
        font: resources.font,
        font_size: 200,
        image: resources.background.menu_button,
        anchor: Anchor::Middle,
        width: size.0,
        height: size.1,
        layer: 50,
        x: 0,
        y: 0,
    }
}

impl ButtonPlan {
    /// Places the button at the given offset from its anchor.
    pub fn with_position(self, x: i64, y: i64) -> (r: ButtonPlan)
        ensures
            r == (ButtonPlan { x, y, ..self }),
    {
        ButtonPlan { x, y, ..self }
    }

    /// Builds the button into a fresh entity.
    pub fn build_from_world(self, store: &mut Store) -> (e: u64)
        requires
            old(store).wf(),
            old(store).next_entity < u64::MAX,
        ensures
            final(store).wf(),
            e == old(store).next_entity,
            !old(store).alive(e),
            final(store).next_entity == old(store).next_entity + 1,
            final(store).entities@ == old(store).entities@.insert(e, button_record(self)),
            same_assets(old(store), final(store)),
    {
        let ghost plan = self;
        let e: u64 = store.create_entity();
        store.set_layout(
            e,
            Layout {
                x: self.x,
                y: self.y,
                z: self.layer,
                width: self.width,
                height: self.height,
                anchor: self.anchor,
                stretch: Stretch::NoStretch,
                tab_order: 0,
                opaque: false,
            },
        );
        store.set_image(e, self.image);
        store.set_text(
            e,
            TextBlock {
                content: self.text,
                color: make_text_color(),
                font: self.font,
                font_size: self.font_size,
            },
        );
        store.set_reactive(e, true);
        proof {
            assert(store.entities@ =~= old(store).entities@.insert(e, button_record(plan)));
        }
        e
    }
}

/// Text window builder.
pub struct TextWindow {
    /// A widget identifier for the host's diagnostics; not part of the built
    /// entities.
    pub name: Option<String>,
    /// x, y, z.
    pub position: (i64, i64, i64),
    /// Width, height.
    pub dimensions: (i64, i64),
    pub tab_order: i64,
    pub anchor: Anchor,
    pub stretch: Stretch,
    pub text: Option<String>,
    pub text_color: Color,
    pub font: Option<u64>,
    pub font_size: i64,
    pub image: Option<u64>,
    pub resize_policy: Option<ResizePolicy>,
    pub close_background: Option<u64>,
}

/// The record of the built window root.
pub open spec fn window_record(b: TextWindow) -> Record {
    Record {
        layout: Some(
            Layout {
                x: b.position.0,
                y: b.position.1,
                z: b.position.2,
                width: b.dimensions.0,
                height: b.dimensions.1,
                anchor: b.anchor,
                stretch: b.stretch,
                tab_order: b.tab_order,
                opaque: false,
            },
        ),
        image: Some(b.image.unwrap()),
        resize: b.resize_policy,
        ..Record::empty_spec()
    }
}

/// The record of the built text child, carrying the given content.  It is
/// centred in the window, drawn above it, and stretched to the window with a
/// small margin; its nominal size mirrors the window's width on both sides.
pub open spec fn text_record(b: TextWindow, window: u64, content: String) -> Record {
    Record {
        layout: Some(
            Layout {
                x: 0,
                y: 0,
                z: (b.position.2 + 20) as i64,
                width: b.dimensions.0,
                height: b.dimensions.0,
                anchor: Anchor::Middle,
                stretch: Stretch::XY { x_margin: 100, y_margin: 100 },
                tab_order: (b.tab_order + 1) as i64,
                opaque: false,
            },
        ),
        text: Some(
            TextBlock {
                content,
                color: b.text_color,
                font: b.font.unwrap(),
                font_size: b.font_size,
            },
        ),
        parent: Some(window),
        ..Record::empty_spec()
    }
}

/// The record of the built close button, carrying the given label.  It sits
/// at the window's top-right corner, small and fixed, drawn far above the
/// window, and starts out clickable.
pub open spec fn close_record(b: TextWindow, window: u64, label: String) -> Record {
    Record {
        layout: Some(
            Layout {
                x: (-200) as i64,
                y: (-200) as i64,
                z: (b.position.2 + 2000) as i64,
                width: 500,
                height: 500,
                anchor: Anchor::TopRight,
                stretch: Stretch::NoStretch,
                tab_order: 0,
                opaque: false,
            },
        ),
        image: Some(b.close_background.unwrap()),
        text: Some(
            TextBlock {
                content: label,
                color: default_text_color(),
                font: b.font.unwrap(),
                font_size: 300,
            },
        ),
        parent: Some(window),
        reactive: true,
        ..Record::empty_spec()
    }
}

impl Default for TextWindow {
    /// An unconfigured window: origin position at the default layer, no
    /// size, anchored top-left, unstretched, no text, default colour and
    /// font size, and no images.
    fn default() -> (r: Self)
        ensures
            r.name is None,
            r.position == (0int as i64, 0int as i64, DEFAULT_Z),
            r.dimensions == (0int as i64, 0int as i64),
            r.tab_order == 0,
            r.anchor == Anchor::TopLeft,
            r.stretch == Stretch::NoStretch,
            r.text is None,
            r.text_color == default_text_color(),
            r.font is None,
            r.font_size == 320,
            r.image is None,
            r.resize_policy is None,
            r.close_background is None,
    {
        TextWindow {
            name: None,
            position: (0, 0, DEFAULT_Z),
            dimensions: (0, 0),
            tab_order: 0,
            anchor: Anchor::TopLeft,
            stretch: Stretch::NoStretch,
            text: None,
            text_color: make_text_color(),
            font: None,
            font_size: 320,
            image: None,
            resize_policy: None,
            close_background: None,
        }
    }
}

impl TextWindow {
    /// Associates an identifier with the window.
    pub fn name(self, name: String) -> (r: Self)
        ensures
            r == (TextWindow { name: Some(name), ..self }),
    {
        TextWindow { name: Some(name), ..self }
    }

    /// Assigns the window position; coordinates left out stay as they are.
    pub fn position(self, x: Option<i64>, y: Option<i64>, z: Option<i64>) -> (r: Self)
        ensures
            r.position.0 == (match x {
                Some(v) => v,
                None => self.position.0,
            }),
            r.position.1 == (match y {
                Some(v) => v,
                None => self.position.1,
            }),
            r.position.2 == (match z {
                Some(v) => v,
                None => self.position.2,
            }),
            r == (TextWindow { position: r.position, ..self }),
    {
        let mut this = self;
        this.position.0.assign_if(x);
        this.position.1.assign_if(y);
        this.position.2.assign_if(z);
        this
    }

    /// Assigns the window's width.
    pub fn width(self, new: i64) -> (r: Self)
        ensures
            r == (TextWindow { dimensions: (new, self.dimensions.1), ..self }),
    {
        let mut this = self;
        this.dimensions.0 = new;
        this
    }

    /// Assigns the window's height.
    pub fn height(self, new: i64) -> (r: Self)
        ensures
            r == (TextWindow { dimensions: (self.dimensions.0, new), ..self }),
    {
        let mut this = self;
        this.dimensions.1 = new;
        this
    }

    /// Sets the anchor of the window; top-left by default.
    pub fn anchor(self, anchor: Anchor) -> (r: Self)
        ensures
            r == (TextWindow { anchor, ..self }),
    {
        TextWindow { anchor, ..self }
    }

    /// Sets the stretch policy of the window.
    pub fn stretch(self, stretch: Stretch) -> (r: Self)
        ensures
            r == (TextWindow { stretch, ..self }),
    {
        TextWindow { stretch, ..self }
    }

    /// Sets the initial text of the window; empty by default.
    pub fn text(self, text: String) -> (r: Self)
        ensures
            r == (TextWindow { text: Some(text), ..self }),
    {
        TextWindow { text: Some(text), ..self }
    }

    /// Sets the text colour.
    pub fn text_color(self, text_color: Color) -> (r: Self)
        ensures
            r == (TextWindow { text_color, ..self }),
    {
        TextWindow { text_color, ..self }
    }

    /// Sets the font and its size.
    pub fn font(self, font: u64, size: i64) -> (r: Self)
        ensures
            r == (TextWindow { font: Some(font), font_size: size, ..self }),
    {
        TextWindow { font: Some(font), font_size: size, ..self }
    }

    /// Sets the background image.
    pub fn background(self, image: u64) -> (r: Self)
        ensures
            r == (TextWindow { image: Some(image), ..self }),
    {
        TextWindow { image: Some(image), ..self }
    }

    /// Sets the rule that resizes the window when the screen dimensions
    /// change.
    pub fn resize(self, new_policy: ResizePolicy) -> (r: Self)
        ensures
            r == (TextWindow { resize_policy: Some(new_policy), ..self }),
    {
        TextWindow { resize_policy: Some(new_policy), ..self }
    }

    /// Sets the texture of the close button.
    pub fn close_background(self, new: u64) -> (r: Self)
        ensures
            r == (TextWindow { close_background: Some(new), ..self }),
    {
        TextWindow { close_background: Some(new), ..self }
    }

    /// Builds the window into its three entities: the root, the text child
    /// and the close button.  Leaving out the background image, the font or
    /// the close texture is a programmer error.
    pub fn build(self, store: &mut Store) -> (r: crate::ui::TextWindow)
        requires
            old(store).wf(),
            old(store).next_entity + 3 <= u64::MAX,
            self.font is Some,
            self.image is Some,
            self.close_background is Some,
            self.position.2 + 2000 <= i64::MAX,
            self.tab_order < i64::MAX,
        ensures
            final(store).wf(),
            r.window == old(store).next_entity,
            r.text == old(store).next_entity + 1,
            r.close == old(store).next_entity + 2,
            !old(store).alive(r.window),
            !old(store).alive(r.text),
            !old(store).alive(r.close),
            final(store).next_entity == old(store).next_entity + 3,
            final(store).entities@ == old(store).entities@.insert(
                r.window,
                window_record(self),
            ).insert(r.text, text_record(self, r.window, final(store).rec(r.text).text.unwrap().content)).insert(
                r.close,
                close_record(self, r.window, final(store).rec(r.close).text.unwrap().content),
            ),
            final(store).rec(r.text).text is Some,
            final(store).rec(r.text).text.unwrap().content@ == (match self.text {
                Some(t) => t@,
                None => Seq::<char>::empty(),
            }),
            final(store).rec(r.close).text is Some,
            final(store).rec(r.close).text.unwrap().content@ == "X"@,
            same_assets(old(store), final(store)),
    {
        let ghost b = self;
        let window: u64 = store.create_entity();
        store.set_layout(
            window,
            Layout {
                x: self.position.0,
                y: self.position.1,
                z: self.position.2,
                width: self.dimensions.0,
                height: self.dimensions.1,
                anchor: self.anchor,
                stretch: self.stretch,
                tab_order: self.tab_order,
                opaque: false,
            },
        );
        let image: u64 = match self.image {
            Some(i) => i,
            None => unreached(),
        };
        store.set_image(window, image);
        if let Some(policy) = self.resize_policy {
            store.set_resize(window, policy);
        }

        let font: u64 = match self.font {
            Some(f) => f,
            None => unreached(),
        };

        let text: u64 = store.create_entity();
        store.set_layout(
            text,
            Layout {
                x: 0,
                y: 0,
                z: self.position.2 + 20,
                width: self.dimensions.0,
                height: self.dimensions.0,
                anchor: Anchor::Middle,
                stretch: Stretch::XY { x_margin: 100, y_margin: 100 },
                tab_order: self.tab_order + 1,
                opaque: false,
            },
        );
        store.set_parent(text, window);
        let content = match self.text {
            Some(t) => t,
            None => String::new(),
        };
        let ghost content_v = content;
        store.set_text(
            text,
            TextBlock { content, color: self.text_color, font, font_size: self.font_size },
        );

        let close: u64 = store.create_entity();
        store.set_layout(
            close,
            Layout {
                x: -200,
                y: -200,
                z: self.position.2 + 2000,
                width: 500,
                height: 500,
                anchor: Anchor::TopRight,
                stretch: Stretch::NoStretch,
                tab_order: 0,
                opaque: false,
            },
        );
        let close_background: u64 = match self.close_background {
            Some(i) => i,
            None => unreached(),
        };
        store.set_image(close, close_background);
        store.set_parent(close, window);
        let label = String::from_str("X");
        let ghost label_v = label;
        store.set_text(
            close,
            TextBlock { content: label, color: make_text_color(), font, font_size: 300 },
        );
        store.set_reactive(close, true);

        proof {
            assert(store.entities@ =~= old(store).entities@.insert(window, window_record(b)).insert(
                text,
                text_record(b, window, content_v),
            ).insert(close, close_record(b, window, label_v)));
        }
        crate::ui::TextWindow { window, text, close }
    }
}

} // verus!
