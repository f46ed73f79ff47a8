//! The sprite-sheet singleton and the demonstration sprite entity.

use vstd::prelude::*;

use crate::camera;
use crate::store::{same_assets, Position, Record, Store};

verus! {

/// The singleton bundle of sprite-sheet handles.
#[derive(Clone, Copy, Debug, PartialEq, Eq)]
pub struct Sprites {
    pub kaoru: [u64; 1],
}

/// What fetching the bundle does: the stored copy when one exists, else a
/// freshly loaded sheet that is also stored.
pub open spec fn fetch_sprites_model(s: Store) -> (Sprites, Store) {
    match s.sprites_res {
        Some(r) => (r, s),
        None => (
            (Sprites { kaoru: [s.next_handle] }),
            (Store {
                sprites_res: Some(Sprites { kaoru: [s.next_handle] }),
                next_handle: (s.next_handle + 1) as u64,
                ..s
            }),
        ),
    }
}

/// Two consecutive fetches return the same bundle, and the second one leaves
/// the store exactly as the first left it: the sheet is loaded at most once.
pub proof fn lemma_fetch_sprites_memoizes(s: Store)
    ensures
        fetch_sprites_model(fetch_sprites_model(s).1).0 == fetch_sprites_model(s).0,
        fetch_sprites_model(fetch_sprites_model(s).1).1 == fetch_sprites_model(s).1,
{
}

/// The record of the demonstration sprite entity: placed a quarter of the
/// play field in, halfway up, mirrored from the start.
pub open spec fn demo_sprite_record(sheet: u64) -> Record {
    Record {
        position: Some(Position { x: 12500, y: 15000, z: 0 }),
        sprite: Some(sheet),
        flipped: true,
        ..Record::empty_spec()
    }
}

impl Sprites {
    /// Loads the sprite sheets.
    fn new(store: &mut Store) -> (r: Sprites)
        requires
            old(store).next_handle < u64::MAX,
        ensures
            r.kaoru@ =~= seq![old(store).next_handle],
            *final(store) == (Store {
                next_handle: (old(store).next_handle + 1) as u64,
                ..*old(store)
            }),
    {
        let h: u64 = store.alloc_handle();
        Sprites { kaoru: [h] }
    }

    /// Returns the singleton bundle, loading and storing it on first access.
    pub fn fetch(store: &mut Store) -> (r: Sprites)
        requires
            old(store).next_handle < u64::MAX,
        ensures
            r == fetch_sprites_model(*old(store)).0,
            *final(store) == fetch_sprites_model(*old(store)).1,
            final(store).sprites_res == Some(r),
    {
        if store.sprites_res.is_none() {
            let this = Self::new(store);
            proof {
                assert(this.kaoru =~= [old(store).next_handle]);
            }
            store.set_sprites_res(this);
        }
        match store.sprites_res {
            Some(r) => r,
            None => unreached(),
        }
    }

    /// Spawns the demonstration sprite entity and returns its identity.
    pub fn demo(&self, store: &mut Store) -> (e: u64)
        requires
            old(store).wf(),
            old(store).next_entity < u64::MAX,
        ensures
            final(store).wf(),
            e == old(store).next_entity,
            !old(store).alive(e),
            final(store).next_entity == old(store).next_entity + 1,
            final(store).entities@ == old(store).entities@.insert(
                e,
                demo_sprite_record(self.kaoru@[0]),
            ),
            same_assets(old(store), final(store)),
    {
        let e: u64 = store.create_entity();
        store.set_position(
            e,
            Position { x: camera::WIDTH / 4, y: camera::HEIGHT / 2, z: 0 },
        );
        store.set_sprite(e, self.kaoru[0]);
        store.set_flipped(e, true);
        proof {
            assert(final(store).entities@ =~= old(store).entities@.insert(
                e,
                demo_sprite_record(self.kaoru@[0]),
            ));
        }
        e
    }
}

} // verus!
