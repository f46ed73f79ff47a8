//! The camera entity: a world transform plus a camera marker.

use vstd::prelude::*;

use crate::store::{same_assets, same_meta, Position, Record, Store};

verus! {

/// Width of the visible play field, in tenths of a unit.
pub const WIDTH: i64 = 50000;

/// Height of the visible play field, in tenths of a unit.
pub const HEIGHT: i64 = 30000;

/// The record a fresh camera entity carries: the camera marker and a world
/// transform raised above the scene.
pub open spec fn camera_record() -> Record {
    Record {
        camera: true,
        position: Some(Position { x: 0, y: 0, z: 1000 }),
        ..Record::empty_spec()
    }
}

/// Handle on the camera entity a screen owns.
#[derive(Clone, Copy, Debug, PartialEq, Eq, Structural)]
pub struct Camera {
    pub inner: u64,
}

impl Camera {
    /// Creates the camera entity.
    pub fn new(store: &mut Store) -> (r: Camera)
        requires
            old(store).wf(),
            old(store).next_entity < u64::MAX,
        ensures
            final(store).wf(),
            r.inner == old(store).next_entity,
            !old(store).alive(r.inner),
            final(store).next_entity == old(store).next_entity + 1,
            final(store).entities@ == old(store).entities@.insert(r.inner, camera_record()),
            same_assets(old(store), final(store)),
    {
        let e: u64 = store.create_entity();
        store.set_camera(e, true);
        store.set_position(e, Position { x: 0, y: 0, z: 1000 });
        proof {
            assert(store.entities@ =~= old(store).entities@.insert(e, camera_record()));
        }
        Camera { inner: e }
    }

    /// Destroys the camera entity.
    pub fn destroy(self, store: &mut Store)
        requires
            old(store).wf(),
        ensures
            final(store).wf(),
            final(store).entities@ == old(store).entities@.remove(self.inner),
            same_meta(old(store), final(store)),
    {
        store.delete_entity(self.inner);
    }
}

} // verus!
