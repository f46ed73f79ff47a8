//! The periodic sprite-flip system.
//!
//! A timer accumulates the per-frame delta time; once it reaches the fixed
//! period it resets to zero, and every entity that carries both a world
//! transform and a sprite flips its mirrored marker and shifts horizontally by
//! half the play-field width, in the direction consistent with the new mirror
//! state.

use vstd::prelude::*;

use crate::store::{Position, Record, Store};
use crate::table::{has_key, lemma_entries_dom, lemma_entries_index};

verus! {

/// The flip period, in milliseconds.
pub const PERIOD: u64 = 2500;

/// The registered name of this system within its track.
pub const NAME: u64 = 2;

/// Horizontal shift applied on each flip: half the play-field width.
pub const HALF_WIDTH: i64 = 25000;

/// The same shift towards the other side.
pub const NEG_HALF_WIDTH: i64 = -25000;

/// `x + d` clamped to the `i64` range.
pub open spec fn sat_add_spec(x: i64, d: i64) -> i64 {
    if x + d > i64::MAX {
        i64::MAX
    } else if x + d < i64::MIN {
        i64::MIN
    } else {
        (x + d) as i64
    }
}

/// Saturating addition on `i64`.
pub fn sat_add(x: i64, d: i64) -> (r: i64)
    ensures
        r == sat_add_spec(x, d),
{
    match x.checked_add(d) {
        Some(r) => r,
        None => {
            if d > 0 {
                i64::MAX
            } else {
                i64::MIN
            }
        },
    }
}

/// What one flip does to one entity record: entities carrying both a world
/// transform and a sprite toggle the mirrored marker and shift by half the
/// play-field width, towards the side the new mirror state faces; all other
/// records are untouched.
pub open spec fn flip_record(r: Record) -> Record {
    if r.position is Some && r.sprite is Some {
        let p = r.position.unwrap();
        if r.flipped {
            Record {
                flipped: false,
                position: Some(Position { x: sat_add_spec(p.x, HALF_WIDTH), ..p }),
                ..r
            }
        } else {
            Record {
                flipped: true,
                position: Some(Position { x: sat_add_spec(p.x, NEG_HALF_WIDTH), ..p }),
                ..r
            }
        }
    } else {
        r
    }
}

/// What one flip does to the whole entity map.
pub open spec fn flip_map(m: Map<u64, Record>) -> Map<u64, Record> {
    Map::new(|e: u64| m.dom().contains(e), |e: u64| flip_record(m[e]))
}

/// A flip changes no entity's identity: the map keeps its domain.
pub proof fn lemma_flip_map_dom(m: Map<u64, Record>)
    ensures
        flip_map(m).dom() == m.dom(),
{
    assert(flip_map(m).dom() =~= m.dom());
}

/// The timer after a frame of `delta` milliseconds: it accumulates until the
/// period is reached, then resets to zero.
pub open spec fn step_timer(timer: u64, delta: u64) -> u64 {
    if timer + delta >= PERIOD {
        0
    } else {
        (timer + delta) as u64
    }
}

/// Whether a frame of `delta` milliseconds reaches the period.
pub open spec fn triggers(timer: u64, delta: u64) -> bool {
    timer + delta >= PERIOD
}

/// The periodic sprite-flip system; `timer` accumulates elapsed frame time.
#[derive(Clone, Copy, Debug, PartialEq, Eq, Structural)]
pub struct Demo {
    pub timer: u64,
}

impl Default for Demo {
    /// A fresh system with an empty timer.
    fn default() -> (r: Self)
        ensures
            r.timer == 0,
    {
        Demo { timer: 0 }
    }
}

impl Demo {
    /// The timer never reaches the period between frames.
    pub open spec fn wf(&self) -> bool {
        self.timer < PERIOD
    }

    /// One frame of this system: accumulate the store's delta time; on
    /// reaching the period, reset the timer and flip every sprite entity.
    pub fn run(&mut self, store: &mut Store)
        requires
            old(self).wf(),
            old(store).wf(),
        ensures
            final(self).wf(),
            final(store).wf(),
            final(self).timer == step_timer(old(self).timer, old(store).delta),
            triggers(old(self).timer, old(store).delta) ==> final(store).entities@ == flip_map(
                old(store).entities@,
            ),
            !triggers(old(self).timer, old(store).delta) ==> final(store).entities@ == old(
                store,
            ).entities@,
            crate::store::same_meta(old(store), final(store)),
    {
        let delta: u64 = store.delta;
        if delta < PERIOD - self.timer {
            self.timer = self.timer + delta;
            return;
        }
        self.timer = 0;

        let ghost s_old = store.entities.entries@;
        let n: usize = store.entities.len();
        let mut i: usize = 0;
        while i < n
            invariant
                store.entities.wf(),
                n == store.entities.entries@.len(),
                s_old.len() == n,
                i <= n,
                forall|j: int| i <= j < n ==> #[trigger] store.entities.entries@[j] == s_old[j],
                forall|j: int|
                    0 <= j < i ==> (#[trigger] store.entities.entries@[j]).0 == s_old[j].0
                        && store.entities.entries@[j].1 == flip_record(s_old[j].1),
                store.next_entity == old(store).next_entity,
                store.next_handle == old(store).next_handle,
                store.delta == old(store).delta,
                store.screen_w == old(store).screen_w,
                store.screen_h == old(store).screen_h,
                store.ui_res == old(store).ui_res,
                store.sprites_res == old(store).sprites_res,
                forall|e: u64| #[trigger]
                    store.entities@.dom().contains(e) ==> e < store.next_entity,
            decreases n - i,
        {
            let ghost s_pre = store.entities.entries@;
            let ghost m_pre = store.entities@;
            proof {
                lemma_entries_index(s_pre, i as int);
            }
            let (k, mut rec) = store.entities.remove_at(i);
            if rec.position.is_some() && rec.sprite.is_some() {
                let p = rec.position.unwrap();
                if rec.flipped {
                    rec.flipped = false;
                    rec.position = Some(Position { x: sat_add(p.x, HALF_WIDTH), ..p });
                } else {
                    rec.flipped = true;
                    rec.position = Some(Position { x: sat_add(p.x, NEG_HALF_WIDTH), ..p });
                }
            }
            store.entities.insert_at(i, k, rec);
            proof {
                assert(store.entities.entries@ =~= s_pre.update(
                    i as int,
                    (k, flip_record(s_pre[i as int].1)),
                ));
                assert(store.entities@.dom() =~= m_pre.dom());
            }
            i = i + 1;
        }

        proof {
            let s_new = store.entities.entries@;
            lemma_entries_dom(s_old);
            lemma_entries_dom(s_new);
            assert forall|k: u64| #[trigger]
                store.entities@.dom().contains(k) implies old(store).entities@.dom().contains(
                k,
            ) by {
                let j = choose|j: int| 0 <= j < s_new.len() && (#[trigger] s_new[j]).0 == k;
                assert(s_old[j].0 == k);
                assert(has_key(s_old, k));
            }
            assert forall|k: u64| #[trigger]
                old(store).entities@.dom().contains(k) implies store.entities@.dom().contains(
                k,
            ) by {
                let j = choose|j: int| 0 <= j < s_old.len() && (#[trigger] s_old[j]).0 == k;
                assert(s_new[j].0 == k);
                assert(has_key(s_new, k));
            }
            assert forall|k: u64| #[trigger]
                old(store).entities@.dom().contains(k) implies store.entities@[k] == flip_record(
                old(store).entities@[k],
            ) by {
                let j = choose|j: int| 0 <= j < s_old.len() && (#[trigger] s_old[j]).0 == k;
                lemma_entries_index(s_old, j);
                lemma_entries_index(s_new, j);
            }
            assert(store.entities@ =~= flip_map(old(store).entities@));
        }
    }
}

} // verus!
