//! The modeled entity-component store.
//!
//! Entities are opaque integer identities.  Each living entity owns one
//! `Record` of optional components; absence of a component is a queryable
//! state, not an error.  Singleton resources are stored once per store.
//! Texture and font handles are opaque integers handed out by the host asset
//! loader, modeled by a fresh-handle counter.
//!
//! Units: coordinates and sizes are kept in tenths of a layout unit, and time
//! in milliseconds, so that every rule of the core is exact integer
//! arithmetic.

use vstd::prelude::*;

use crate::sprites::Sprites;
use crate::table::Table;
use crate::ui::builder::ResizePolicy;
use crate::ui::res::Resources;

verus! {

/// Where a widget is anchored within its parent.
#[derive(Clone, Copy, Debug, PartialEq, Eq, Structural)]
pub enum Anchor {
    TopLeft,
    TopRight,
    Middle,
    BottomMiddle,
}

/// How a widget follows the screen dimensions.
#[derive(Clone, Copy, Debug, PartialEq, Eq, Structural)]
pub enum Stretch {
    NoStretch,
    X { x_margin: i64 },
    XY { x_margin: i64, y_margin: i64 },
}

/// A UI layout component: position, size, anchoring and stretch policy.
/// `z` doubles as the draw order.
#[derive(Clone, Copy, Debug, PartialEq, Eq, Structural)]
pub struct Layout {
    pub x: i64,
    pub y: i64,
    pub z: i64,
    pub width: i64,
    pub height: i64,
    pub anchor: Anchor,
    pub stretch: Stretch,
    pub tab_order: i64,
    pub opaque: bool,
}

/// An RGBA colour in tenths per channel.
#[derive(Clone, Copy, Debug, PartialEq, Eq, Structural)]
pub struct Color {
    pub r: i64,
    pub g: i64,
    pub b: i64,
    pub a: i64,
}

/// A text component: content, colour, font handle and size.
#[derive(Clone, Debug, PartialEq)]
pub struct TextBlock {
    pub content: String,
    pub color: Color,
    pub font: u64,
    pub font_size: i64,
}

/// A world-space transform for scene entities (camera, sprites).
#[derive(Clone, Copy, Debug, PartialEq, Eq, Structural)]
pub struct Position {
    pub x: i64,
    pub y: i64,
    pub z: i64,
}

/// All components an entity may carry.
#[derive(Clone, Debug, PartialEq)]
pub struct Record {
    pub layout: Option<Layout>,
    pub image: Option<u64>,
    pub text: Option<TextBlock>,
    pub parent: Option<u64>,
    pub resize: Option<ResizePolicy>,
    pub hidden: bool,
    pub reactive: bool,
    pub flipped: bool,
    pub position: Option<Position>,
    pub sprite: Option<u64>,
    pub camera: bool,
}

impl Record {
    /// The record of a freshly created entity: no components at all.
    pub open spec fn empty_spec() -> Record {
        Record {
            layout: None,
            image: None,
            text: None,
            parent: None,
            resize: None,
            hidden: false,
            reactive: false,
            flipped: false,
            position: None,
            sprite: None,
            camera: false,
        }
    }

    /// Builds the empty record.
    pub fn empty() -> (r: Record)
        ensures
            r == Record::empty_spec(),
    {
        Record {
            layout: None,
            image: None,
            text: None,
            parent: None,
            resize: None,
            hidden: false,
            reactive: false,
            flipped: false,
            position: None,
            sprite: None,
            camera: false,
        }
    }
}

/// Re-inserting over a removed binding is a plain insert.
pub proof fn lemma_reinsert<V>(m: Map<u64, V>, k: u64, v: V)
    ensures
        m.remove(k).insert(k, v) == m.insert(k, v),
{
    assert(m.remove(k).insert(k, v) =~= m.insert(k, v));
}

/// The shared mutable state of the whole core: all mutation of entities and
/// singletons goes through it.
pub struct Store {
    /// The next entity identity to hand out; all living entities are below it.
    pub next_entity: u64,
    /// The next asset handle to hand out.
    pub next_handle: u64,
    /// The delta time of the current frame, in milliseconds.
    pub delta: u64,
    /// Current screen width, in tenths of a unit.
    pub screen_w: u32,
    /// Current screen height, in tenths of a unit.
    pub screen_h: u32,
    /// One record per living entity.
    pub entities: Table<Record>,
    /// The singleton bundle of UI resources, if constructed.
    pub ui_res: Option<Resources>,
    /// The singleton bundle of sprite sheets, if constructed.
    pub sprites_res: Option<Sprites>,
}

/// Everything but the entity table and the entity counter is unchanged.
pub open spec fn same_assets(a: &Store, b: &Store) -> bool {
    &&& a.next_handle == b.next_handle
    &&& a.delta == b.delta
    &&& a.screen_w == b.screen_w
    &&& a.screen_h == b.screen_h
    &&& a.ui_res == b.ui_res
    &&& a.sprites_res == b.sprites_res
}

/// Everything but the entity table is unchanged.
pub open spec fn same_meta(a: &Store, b: &Store) -> bool {
    &&& a.next_entity == b.next_entity
    &&& same_assets(a, b)
}

impl Store {
    /// Well-formedness: the record table is a map, and every living entity
    /// lies below the fresh-identity counter.
    pub open spec fn wf(&self) -> bool {
        &&& self.entities.wf()
        &&& forall|e: u64| #[trigger] self.entities@.dom().contains(e) ==> e < self.next_entity
    }

    /// Whether entity `e` is alive.
    pub open spec fn alive(&self, e: u64) -> bool {
        self.entities@.dom().contains(e)
    }

    /// The record of entity `e` (meaningful only while `e` is alive).
    pub open spec fn rec(&self, e: u64) -> Record {
        self.entities@[e]
    }

    /// An empty store for a host window of the given dimensions.
    pub fn new(screen_w: u32, screen_h: u32) -> (r: Store)
        ensures
            r.wf(),
            r.next_entity == 0,
            r.next_handle == 0,
            r.delta == 0,
            r.screen_w == screen_w,
            r.screen_h == screen_h,
            r.entities@ == Map::<u64, Record>::empty(),
            r.ui_res is None,
            r.sprites_res is None,
    {
        Store {
            next_entity: 0,
            next_handle: 0,
            delta: 0,
            screen_w,
            screen_h,
            entities: Table::new(),
            ui_res: None,
            sprites_res: None,
        }
    }

    /// Creates a fresh entity with no components and returns its identity.
    pub fn create_entity(&mut self) -> (e: u64)
        requires
            old(self).wf(),
            old(self).next_entity < u64::MAX,
        ensures
            final(self).wf(),
            e == old(self).next_entity,
            !old(self).alive(e),
            final(self).next_entity == old(self).next_entity + 1,
            final(self).entities@ == old(self).entities@.insert(e, Record::empty_spec()),
            same_assets(old(self), final(self)),
    {
        let e: u64 = self.next_entity;
        self.next_entity = e + 1;
        self.entities.insert(e, Record::empty());
        e
    }

    /// Destroys entity `e`; destroying a dead entity is a no-op.
    pub fn delete_entity(&mut self, e: u64)
        requires
            old(self).wf(),
        ensures
            final(self).wf(),
            final(self).entities@ == old(self).entities@.remove(e),
            same_meta(old(self), final(self)),
    {
        self.entities.remove(e);
    }

    /// Whether entity `e` is alive.
    pub fn is_alive(&self, e: u64) -> (r: bool)
        ensures
            r == self.alive(e),
    {
        self.entities.contains_key(e)
    }

    /// The number of living entities.
    pub fn entity_count(&self) -> (n: usize)
        requires
            self.wf(),
        ensures
            n == self.entities@.dom().len(),
    {
        self.entities.len()
    }

    /// Hands out a fresh opaque asset handle.  It stands for the handle the
    /// host asset loader returns after decoding and uploading asset data.
    pub fn alloc_handle(&mut self) -> (h: u64)
        requires
            old(self).next_handle < u64::MAX,
        ensures
            h == old(self).next_handle,
            final(self).next_handle == old(self).next_handle + 1,
            final(self).next_entity == old(self).next_entity,
            final(self).delta == old(self).delta,
            final(self).screen_w == old(self).screen_w,
            final(self).screen_h == old(self).screen_h,
            final(self).entities == old(self).entities,
            final(self).ui_res == old(self).ui_res,
            final(self).sprites_res == old(self).sprites_res,
    {
        let h: u64 = self.next_handle;
        self.next_handle = h + 1;
        h
    }

    /// Moves the record of a living entity out for modification.
    fn take_record(&mut self, e: u64) -> (r: Record)
        requires
            old(self).wf(),
            old(self).alive(e),
        ensures
            final(self).wf(),
            r == old(self).entities@[e],
            final(self).entities@ == old(self).entities@.remove(e),
            same_meta(old(self), final(self)),
    {
        self.entities.take(e).unwrap()
    }

    /// Puts a modified record back; the pair with `take_record` acts as one
    /// in-place update.
    fn put_record(&mut self, e: u64, r: Record)
        requires
            old(self).wf(),
            e < old(self).next_entity,
        ensures
            final(self).wf(),
            final(self).entities@ == old(self).entities@.insert(e, r),
            same_meta(old(self), final(self)),
    {
        self.entities.insert(e, r);
    }

    /// Attaches (or replaces) the layout component of `e`.
    pub fn set_layout(&mut self, e: u64, l: Layout)
        requires
            old(self).wf(),
            old(self).alive(e),
        ensures
            final(self).wf(),
            final(self).entities@ == old(self).entities@.insert(
                e,
                (Record { layout: Some(l), ..old(self).entities@[e] }),
            ),
            same_meta(old(self), final(self)),
    {
        let mut r = self.take_record(e);
        r.layout = Some(l);
        self.put_record(e, r);
        proof {
            lemma_reinsert(
                old(self).entities@,
                e,
                (Record { layout: Some(l), ..old(self).entities@[e] }),
            );
        }
    }

    /// Attaches (or replaces) the background-image component of `e`.
    pub fn set_image(&mut self, e: u64, image: u64)
        requires
            old(self).wf(),
            old(self).alive(e),
        ensures
            final(self).wf(),
            final(self).entities@ == old(self).entities@.insert(
                e,
                (Record { image: Some(image), ..old(self).entities@[e] }),
            ),
            same_meta(old(self), final(self)),
    {
        let mut r = self.take_record(e);
        r.image = Some(image);
        self.put_record(e, r);
        proof {
            lemma_reinsert(
                old(self).entities@,
                e,
                (Record { image: Some(image), ..old(self).entities@[e] }),
            );
        }
    }

    /// Attaches (or replaces) the text component of `e`.
    pub fn set_text(&mut self, e: u64, text: TextBlock)
        requires
            old(self).wf(),
            old(self).alive(e),
        ensures
            final(self).wf(),
            final(self).entities@ == old(self).entities@.insert(
                e,
                (Record { text: Some(text), ..old(self).entities@[e] }),
            ),
            same_meta(old(self), final(self)),
    {
        let ghost t = text;
        let mut r = self.take_record(e);
        r.text = Some(text);
        self.put_record(e, r);
        proof {
            lemma_reinsert(
                old(self).entities@,
                e,
                (Record { text: Some(t), ..old(self).entities@[e] }),
            );
        }
    }

    /// Links `e` to its parent entity.
    pub fn set_parent(&mut self, e: u64, parent: u64)
        requires
            old(self).wf(),
            old(self).alive(e),
        ensures
            final(self).wf(),
            final(self).entities@ == old(self).entities@.insert(
                e,
                (Record { parent: Some(parent), ..old(self).entities@[e] }),
            ),
            same_meta(old(self), final(self)),
    {
        let mut r = self.take_record(e);
        r.parent = Some(parent);
        self.put_record(e, r);
        proof {
            lemma_reinsert(
                old(self).entities@,
                e,
                (Record { parent: Some(parent), ..old(self).entities@[e] }),
            );
        }
    }

    /// Attaches a resize policy to `e`.
    pub fn set_resize(&mut self, e: u64, policy: ResizePolicy)
        requires
            old(self).wf(),
            old(self).alive(e),
        ensures
            final(self).wf(),
            final(self).entities@ == old(self).entities@.insert(
                e,
                (Record { resize: Some(policy), ..old(self).entities@[e] }),
            ),
            same_meta(old(self), final(self)),
    {
        let mut r = self.take_record(e);
        r.resize = Some(policy);
        self.put_record(e, r);
        proof {
            lemma_reinsert(
                old(self).entities@,
                e,
                (Record { resize: Some(policy), ..old(self).entities@[e] }),
            );
        }
    }

    /// Sets or clears the hidden marker of `e`.
    pub fn set_hidden(&mut self, e: u64, on: bool)
        requires
            old(self).wf(),
            old(self).alive(e),
        ensures
            final(self).wf(),
            final(self).entities@ == old(self).entities@.insert(
                e,
                (Record { hidden: on, ..old(self).entities@[e] }),
            ),
            same_meta(old(self), final(self)),
    {
        let mut r = self.take_record(e);
        r.hidden = on;
        self.put_record(e, r);
        proof {
            lemma_reinsert(
                old(self).entities@,
                e,
                (Record { hidden: on, ..old(self).entities@[e] }),
            );
        }
    }

    /// Sets or clears the interactivity marker of `e`.
    pub fn set_reactive(&mut self, e: u64, on: bool)
        requires
            old(self).wf(),
            old(self).alive(e),
        ensures
            final(self).wf(),
            final(self).entities@ == old(self).entities@.insert(
                e,
                (Record { reactive: on, ..old(self).entities@[e] }),
            ),
            same_meta(old(self), final(self)),
    {
        let mut r = self.take_record(e);
        r.reactive = on;
        self.put_record(e, r);
        proof {
            lemma_reinsert(
                old(self).entities@,
                e,
                (Record { reactive: on, ..old(self).entities@[e] }),
            );
        }
    }

    /// Sets or clears the mirrored marker of `e`.
    pub fn set_flipped(&mut self, e: u64, on: bool)
        requires
            old(self).wf(),
            old(self).alive(e),
        ensures
            final(self).wf(),
            final(self).entities@ == old(self).entities@.insert(
                e,
                (Record { flipped: on, ..old(self).entities@[e] }),
            ),
            same_meta(old(self), final(self)),
    {
        let mut r = self.take_record(e);
        r.flipped = on;
        self.put_record(e, r);
        proof {
            lemma_reinsert(
                old(self).entities@,
                e,
                (Record { flipped: on, ..old(self).entities@[e] }),
            );
        }
    }

    /// Attaches (or replaces) the world transform of `e`.
    pub fn set_position(&mut self, e: u64, p: Position)
        requires
            old(self).wf(),
            old(self).alive(e),
        ensures
            final(self).wf(),
            final(self).entities@ == old(self).entities@.insert(
                e,
                (Record { position: Some(p), ..old(self).entities@[e] }),
            ),
            same_meta(old(self), final(self)),
    {
        let mut r = self.take_record(e);
        r.position = Some(p);
        self.put_record(e, r);
        proof {
            lemma_reinsert(
                old(self).entities@,
                e,
                (Record { position: Some(p), ..old(self).entities@[e] }),
            );
        }
    }

    /// Attaches (or replaces) the sprite-render component of `e`.
    pub fn set_sprite(&mut self, e: u64, sheet: u64)
        requires
            old(self).wf(),
            old(self).alive(e),
        ensures
            final(self).wf(),
            final(self).entities@ == old(self).entities@.insert(
                e,
                (Record { sprite: Some(sheet), ..old(self).entities@[e] }),
            ),
            same_meta(old(self), final(self)),
    {
        let mut r = self.take_record(e);
        r.sprite = Some(sheet);
        self.put_record(e, r);
        proof {
            lemma_reinsert(
                old(self).entities@,
                e,
                (Record { sprite: Some(sheet), ..old(self).entities@[e] }),
            );
        }
    }

    /// Marks `e` as the camera entity.
    pub fn set_camera(&mut self, e: u64, on: bool)
        requires
            old(self).wf(),
            old(self).alive(e),
        ensures
            final(self).wf(),
            final(self).entities@ == old(self).entities@.insert(
                e,
                (Record { camera: on, ..old(self).entities@[e] }),
            ),
            same_meta(old(self), final(self)),
    {
        let mut r = self.take_record(e);
        r.camera = on;
        self.put_record(e, r);
        proof {
            lemma_reinsert(
                old(self).entities@,
                e,
                (Record { camera: on, ..old(self).entities@[e] }),
            );
        }
    }

    /// The layout of `e`, if alive and present.
    pub fn layout_of(&self, e: u64) -> (r: Option<Layout>)
        requires
            self.wf(),
        ensures
            r == if self.alive(e) {
                self.rec(e).layout
            } else {
                None::<Layout>
            },
    {
        match self.entities.get(e) {
            Some(r) => r.layout,
            None => None,
        }
    }

    /// The background image of `e`, if alive and present.
    pub fn image_of(&self, e: u64) -> (r: Option<u64>)
        requires
            self.wf(),
        ensures
            r == if self.alive(e) {
                self.rec(e).image
            } else {
                None::<u64>
            },
    {
        match self.entities.get(e) {
            Some(r) => r.image,
            None => None,
        }
    }

    /// The text block of `e`, if alive and present.
    pub fn text_of(&self, e: u64) -> (r: Option<&TextBlock>)
        requires
            self.wf(),
        ensures
            match r {
                Some(t) => self.alive(e) && self.rec(e).text == Some(*t),
                None => !self.alive(e) || self.rec(e).text is None,
            },
    {
        match self.entities.get(e) {
            Some(r) => r.text.as_ref(),
            None => None,
        }
    }

    /// The parent of `e`, if alive and present.
    pub fn parent_of(&self, e: u64) -> (r: Option<u64>)
        requires
            self.wf(),
        ensures
            r == if self.alive(e) {
                self.rec(e).parent
            } else {
                None::<u64>
            },
    {
        match self.entities.get(e) {
            Some(r) => r.parent,
            None => None,
        }
    }

    /// The resize policy of `e`, if alive and present.
    pub fn resize_of(&self, e: u64) -> (r: Option<ResizePolicy>)
        requires
            self.wf(),
        ensures
            r == if self.alive(e) {
                self.rec(e).resize
            } else {
                None::<ResizePolicy>
            },
    {
        match self.entities.get(e) {
            Some(r) => r.resize,
            None => None,
        }
    }

    /// Whether `e` carries the hidden marker.
    pub fn is_hidden(&self, e: u64) -> (r: bool)
        requires
            self.wf(),
        ensures
            r == (self.alive(e) && self.rec(e).hidden),
    {
        match self.entities.get(e) {
            Some(r) => r.hidden,
            None => false,
        }
    }

    /// Whether `e` carries the interactivity marker.
    pub fn is_reactive(&self, e: u64) -> (r: bool)
        requires
            self.wf(),
        ensures
            r == (self.alive(e) && self.rec(e).reactive),
    {
        match self.entities.get(e) {
            Some(r) => r.reactive,
            None => false,
        }
    }

    /// Whether `e` carries the mirrored marker.
    pub fn is_flipped(&self, e: u64) -> (r: bool)
        requires
            self.wf(),
        ensures
            r == (self.alive(e) && self.rec(e).flipped),
    {
        match self.entities.get(e) {
            Some(r) => r.flipped,
            None => false,
        }
    }

    /// The world transform of `e`, if alive and present.
    pub fn position_of(&self, e: u64) -> (r: Option<Position>)
        requires
            self.wf(),
        ensures
            r == if self.alive(e) {
                self.rec(e).position
            } else {
                None::<Position>
            },
    {
        match self.entities.get(e) {
            Some(r) => r.position,
            None => None,
        }
    }

    /// The sprite sheet of `e`, if alive and present.
    pub fn sprite_of(&self, e: u64) -> (r: Option<u64>)
        requires
            self.wf(),
        ensures
            r == if self.alive(e) {
                self.rec(e).sprite
            } else {
                None::<u64>
            },
    {
        match self.entities.get(e) {
            Some(r) => r.sprite,
            None => None,
        }
    }

    /// Records the delta time of the frame about to run.
    pub fn set_delta(&mut self, delta: u64)
        ensures
            *final(self) == (Store { delta, ..*old(self) }),
    {
        self.delta = delta;
    }

    /// Records new screen dimensions delivered by the host.
    pub fn set_screen(&mut self, w: u32, h: u32)
        ensures
            *final(self) == (Store { screen_w: w, screen_h: h, ..*old(self) }),
    {
        self.screen_w = w;
        self.screen_h = h;
    }

    /// Installs the UI resource singleton.
    pub fn set_ui_res(&mut self, r: Resources)
        ensures
            *final(self) == (Store { ui_res: Some(r), ..*old(self) }),
    {
        self.ui_res = Some(r);
    }

    /// Installs the sprite-sheet singleton.
    pub fn set_sprites_res(&mut self, r: Sprites)
        ensures
            *final(self) == (Store { sprites_res: Some(r), ..*old(self) }),
    {
        self.sprites_res = Some(r);
    }
}

} // verus!
