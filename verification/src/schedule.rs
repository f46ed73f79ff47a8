//! The two-track dispatcher: named groups of per-frame systems, built once
//! into an immutable, dependency-ordered runnable form, then invoked
//! independently each frame.
//!
//! Building is two-phase.  A `GameDataBuilder` accumulates systems per track,
//! each naming the systems that must run before it; `build` compiles every
//! track independently, ordering its systems topologically.  Compilation
//! fails exactly when a track references an unregistered system or its
//! dependency graph is cyclic.

use vstd::prelude::*;

use crate::store::{same_meta, Record, Store};
use crate::systems::demo;
use crate::systems::demo::Demo;

verus! {

/// The body of a registered system.  The gameplay system is part of this
/// core and its effect on the store is modeled; every other system of the
/// application (input routing, layout, hierarchy hiding) runs in the host
/// engine and does not touch the modeled store.
#[derive(Clone, Copy, Debug, PartialEq, Eq, Structural)]
pub enum Routine {
    /// A host-engine system: no effect on the modeled store.
    External,
    /// The periodic sprite-flip system.
    Gameplay(Demo),
}

/// One registered system: its name, the names it depends on, and its body.
#[derive(Debug)]
pub struct SysDecl {
    /// The name under which the system is registered, as an opaque integer.
    pub id: u64,
    /// Names of the systems that must run before this one, within the track.
    pub deps: Vec<u64>,
    /// The system body.
    pub routine: Routine,
}

/// Why a track failed to compile.
#[derive(Clone, Copy, Debug, PartialEq, Eq, Structural)]
pub enum ScheduleError {
    /// A dependency names a system that is not registered in the track;
    /// carries the unknown name.
    UnknownDependency(u64),
    /// The track's dependency graph has a cycle.
    CyclicDependency,
}

/// All registered names are pairwise distinct.
pub open spec fn ids_unique(s: Seq<SysDecl>) -> bool {
    forall|i: int, j: int| 0 <= i < j < s.len() ==> (#[trigger] s[i]).id != (#[trigger] s[j]).id
}

/// Some system in `s` is named `id`.
pub open spec fn has_sys(s: Seq<SysDecl>, id: u64) -> bool {
    exists|i: int| 0 <= i < s.len() && (#[trigger] s[i]).id == id
}

/// Every dependency of every system names a registered system.
pub open spec fn deps_known(s: Seq<SysDecl>) -> bool {
    forall|i: int, k: int|
        0 <= i < s.len() && 0 <= k < s[i].deps@.len() ==> has_sys(s, #[trigger] s[i].deps@[k])
}

/// `d` occurs as a dependency somewhere in `s`.
pub open spec fn dep_referenced(s: Seq<SysDecl>, d: u64) -> bool {
    exists|i: int, k: int|
        0 <= i < s.len() && 0 <= k < s[i].deps@.len() && #[trigger] s[i].deps@[k] == d
}

/// All dependencies of `d` are already placed in `order`.
pub open spec fn deps_ok_spec(d: SysDecl, order: Seq<SysDecl>) -> bool {
    forall|k: int| 0 <= k < d.deps@.len() ==> has_sys(order, #[trigger] d.deps@[k])
}

/// A non-empty set of registered names each of which depends on another name
/// of the set.  On a finite graph such a set exists exactly when the
/// dependency graph has a cycle: every node of a cycle qualifies, and
/// conversely no member of such a set could come first in any valid order.
pub open spec fn stuck_set(s: Seq<SysDecl>, c: Set<u64>) -> bool {
    &&& exists|x: u64| c.contains(x)
    &&& forall|x: u64| #[trigger] c.contains(x) ==> has_sys(s, x)
    &&& forall|i: int|
        0 <= i < s.len() && c.contains((#[trigger] s[i]).id) ==> exists|k: int|
            0 <= k < s[i].deps@.len() && c.contains(s[i].deps@[k])
}

/// The dependency graph of `s` has a cycle.
pub open spec fn has_cycle(s: Seq<SysDecl>) -> bool {
    exists|c: Set<u64>| #[trigger] stuck_set(s, c)
}

/// Some system before position `i` of `order` is named `id`.
pub open spec fn placed_before(order: Seq<SysDecl>, i: int, id: u64) -> bool {
    exists|j: int| 0 <= j < i && (#[trigger] order[j]).id == id
}

/// Every element of `order` is one of the declarations of `sys`.
pub open spec fn drawn_from(order: Seq<SysDecl>, sys: Seq<SysDecl>) -> bool {
    forall|a: int|
        0 <= a < order.len() ==> exists|b: int|
            0 <= b < sys.len() && (#[trigger] order[a]) == sys[b]
}

/// Every system of `order` comes after all of its dependencies.
pub open spec fn topo_ok(order: Seq<SysDecl>) -> bool {
    forall|i: int, k: int| #![trigger order[i].deps@[k]]
        0 <= i < order.len() && 0 <= k < order[i].deps@.len() ==> placed_before(
            order,
            i,
            order[i].deps@[k],
        )
}

/// Every embedded gameplay system has a well-formed timer.
pub open spec fn routines_wf(s: Seq<SysDecl>) -> bool {
    forall|i: int|
        0 <= i < s.len() ==> match (#[trigger] s[i]).routine {
            Routine::External => true,
            Routine::Gameplay(d) => d.wf(),
        }
}

/// How many slots still hold a system.
pub open spec fn cnt_some(s: Seq<Option<SysDecl>>) -> nat
    decreases s.len(),
{
    if s.len() == 0 {
        0
    } else {
        cnt_some(s.drop_last()) + if s.last() is Some {
            1nat
        } else {
            0nat
        }
    }
}

/// Clearing an occupied slot lowers the count by one.
pub proof fn lemma_cnt_clear(s: Seq<Option<SysDecl>>, i: int)
    requires
        0 <= i < s.len(),
        s[i] is Some,
    ensures
        cnt_some(s.update(i, None)) == cnt_some(s) - 1,
    decreases s.len(),
{
    let t = s.update(i, None);
    if i == s.len() - 1 {
        assert(t.drop_last() =~= s.drop_last());
        assert(t.last() is None);
    } else {
        lemma_cnt_clear(s.drop_last(), i);
        assert(t.drop_last() =~= s.drop_last().update(i, None));
        assert(t.last() == s.last());
    }
}

/// A positive count means some slot is occupied.
pub proof fn lemma_cnt_pos(s: Seq<Option<SysDecl>>)
    requires
        cnt_some(s) > 0,
    ensures
        exists|j: int| 0 <= j < s.len() && (#[trigger] s[j]) is Some,
    decreases s.len(),
{
    if s.last() is Some {
        assert(s[s.len() - 1] is Some);
    } else {
        lemma_cnt_pos(s.drop_last());
        let j = choose|j: int| 0 <= j < s.drop_last().len() && (#[trigger] s.drop_last()[j]) is Some;
        assert(s[j] is Some);
    }
}

/// Filling one more slot raises the count by one.
pub proof fn lemma_cnt_push(s: Seq<Option<SysDecl>>, d: SysDecl)
    ensures
        cnt_some(s.push(Some(d))) == cnt_some(s) + 1,
{
    let t = s.push(Some(d));
    assert(t.drop_last() =~= s);
    assert(t.last() == Some(d));
}

/// No member of a set whose every member depends on a member can appear in a
/// dependency-ordered sequence: its first occurrence would need an earlier one.
pub proof fn lemma_stuck_excluded(order: Seq<SysDecl>, c: Set<u64>, i: int)
    requires
        topo_ok(order),
        forall|a: int|
            0 <= a < order.len() && c.contains((#[trigger] order[a]).id) ==> exists|k: int|
                0 <= k < order[a].deps@.len() && c.contains(order[a].deps@[k]),
        0 <= i < order.len(),
    ensures
        !c.contains(order[i].id),
    decreases i,
{
    assert forall|j: int| 0 <= j < i implies !c.contains((#[trigger] order[j]).id) by {
        lemma_stuck_excluded(order, c, j);
    }
    if c.contains(order[i].id) {
        let k = choose|k: int| 0 <= k < order[i].deps@.len() && c.contains(order[i].deps@[k]);
        assert(placed_before(order, i, order[i].deps@[k]));
        let j = choose|j: int| 0 <= j < i && (#[trigger] order[j]).id == order[i].deps@[k];
        assert(!c.contains(order[j].id));
    }
}


/// Placing a system whose dependencies are all placed preserves every
/// property of a partial dependency order.
pub proof fn lemma_place_step(sys: Seq<SysDecl>, pre: Seq<SysDecl>, decl: SysDecl, b0: int)
    requires
        0 <= b0 < sys.len(),
        decl == sys[b0],
        !has_sys(pre, decl.id),
        deps_ok_spec(decl, pre),
        drawn_from(pre, sys),
        ids_unique(pre),
        topo_ok(pre),
        routines_wf(sys),
        routines_wf(pre),
    ensures
        ids_unique(pre.push(decl)),
        topo_ok(pre.push(decl)),
        routines_wf(pre.push(decl)),
        drawn_from(pre.push(decl), sys),
        forall|id: u64| #[trigger]
            has_sys(pre.push(decl), id) <==> (has_sys(pre, id) || id == decl.id),
{
    let post = pre.push(decl);
    assert(post[pre.len() as int] == decl);
    assert(drawn_from(post, sys)) by {
        assert forall|a: int| 0 <= a < post.len() implies exists|b: int|
            0 <= b < sys.len() && (#[trigger] post[a]) == sys[b] by {
            if a < pre.len() {
                assert(post[a] == pre[a]);
                assert(drawn_from(pre, sys));
                let b = choose|b: int| 0 <= b < sys.len() && (#[trigger] pre[a]) == sys[b];
                assert(post[a] == sys[b]);
            } else {
                assert(post[a] == sys[b0]);
            }
        }
    }
    assert forall|a: int, b: int| 0 <= a < b < post.len() implies (#[trigger] post[a]).id != (
    #[trigger] post[b]).id by {
        if b == pre.len() {
            assert(post[a] == pre[a]);
            if post[a].id == decl.id {
                assert(has_sys(pre, decl.id));
            }
        } else {
            assert(post[a] == pre[a]);
            assert(post[b] == pre[b]);
        }
    }
    assert(topo_ok(post)) by {
        assert forall|a: int, k: int| #![trigger post[a].deps@[k]]
            0 <= a < post.len() && 0 <= k < post[a].deps@.len() implies placed_before(
            post,
            a,
            post[a].deps@[k],
        ) by {
            if a < pre.len() {
                assert(post[a] == pre[a]);
                assert(0 <= k < pre[a].deps@.len());
                assert(placed_before(pre, a, pre[a].deps@[k]));
                let j = choose|j: int| 0 <= j < a && (#[trigger] pre[j]).id == pre[a].deps@[k];
                assert(post[j] == pre[j]);
                assert((post[j]).id == post[a].deps@[k]);
            } else {
                assert(post[a] == decl);
                assert(has_sys(pre, decl.deps@[k]));
                let j = choose|j: int|
                    0 <= j < pre.len() && (#[trigger] pre[j]).id == decl.deps@[k];
                assert(post[j] == pre[j]);
                assert((post[j]).id == post[a].deps@[k]);
            }
        }
    }
    assert forall|a: int| 0 <= a < post.len() implies match (#[trigger] post[a]).routine {
        Routine::External => true,
        Routine::Gameplay(d) => d.wf(),
    } by {
        if a < pre.len() {
            assert(post[a] == pre[a]);
        } else {
            assert(post[a] == sys[b0]);
        }
    }
    assert forall|id: u64| #[trigger]
        has_sys(post, id) <==> (has_sys(pre, id) || id == decl.id) by {
        if has_sys(post, id) {
            let a = choose|a: int| 0 <= a < post.len() && (#[trigger] post[a]).id == id;
            if a < pre.len() {
                assert(pre[a].id == id);
                assert(has_sys(pre, id));
            } else {
                assert(post[a] == decl);
            }
        }
        if has_sys(pre, id) {
            let a = choose|a: int| 0 <= a < pre.len() && (#[trigger] pre[a]).id == id;
            assert(post[a].id == id);
            assert(has_sys(post, id));
        }
        if id == decl.id {
            assert(post[pre.len() as int].id == id);
            assert(has_sys(post, id));
        }
    }
}

/// When no unplaced system has all of its dependencies placed, the unplaced
/// names form a stuck set: the graph is cyclic.
pub proof fn lemma_stuck_cycle(
    sys: Seq<SysDecl>,
    order: Seq<SysDecl>,
    slots: Seq<Option<SysDecl>>,
)
    requires
        deps_known(sys),
        slots.len() == sys.len(),
        cnt_some(slots) > 0,
        forall|j: int|
            0 <= j < sys.len() ==> (((#[trigger] slots[j]) is None) <==> has_sys(
                order,
                sys[j].id,
            )),
        forall|j: int|
            0 <= j < sys.len() && (#[trigger] slots[j]) is Some ==> !deps_ok_spec(sys[j], order),
    ensures
        has_cycle(sys),
{
    let c = Set::new(|id: u64| has_sys(sys, id) && !has_sys(order, id));
    lemma_cnt_pos(slots);
    let w = choose|j: int| 0 <= j < slots.len() && (#[trigger] slots[j]) is Some;
    assert(!has_sys(order, sys[w].id));
    assert(has_sys(sys, sys[w].id));
    assert(c.contains(sys[w].id));
    assert forall|i2: int|
        0 <= i2 < sys.len() && c.contains((#[trigger] sys[i2]).id) implies exists|k: int|
        0 <= k < sys[i2].deps@.len() && c.contains(sys[i2].deps@[k]) by {
        assert(!has_sys(order, sys[i2].id));
        assert(slots[i2] is Some);
        assert(!deps_ok_spec(sys[i2], order));
        let k = choose|k: int|
            0 <= k < sys[i2].deps@.len() && !has_sys(order, #[trigger] sys[i2].deps@[k]);
        assert(has_sys(sys, sys[i2].deps@[k]));
        assert(c.contains(sys[i2].deps@[k]));
    }
    assert(stuck_set(sys, c));
}

/// A complete dependency order over the registered names rules out any cycle.
/// The stuck-set condition transfers from the registry to any sequence drawn
/// from it.
pub proof fn lemma_stuck_transfer(sys: Seq<SysDecl>, order: Seq<SysDecl>, c: Set<u64>)
    requires
        stuck_set(sys, c),
        drawn_from(order, sys),
    ensures
        forall|a: int|
            0 <= a < order.len() && c.contains((#[trigger] order[a]).id) ==> exists|k: int|
                0 <= k < order[a].deps@.len() && c.contains(order[a].deps@[k]),
{
    assert forall|a: int|
        0 <= a < order.len() && c.contains((#[trigger] order[a]).id) implies exists|k: int|
        0 <= k < order[a].deps@.len() && c.contains(order[a].deps@[k]) by {
        assert(drawn_from(order, sys));
        let b = choose|b: int| 0 <= b < sys.len() && (#[trigger] order[a]) == sys[b];
        assert(c.contains(sys[b].id));
        let k = choose|k: int| 0 <= k < sys[b].deps@.len() && c.contains(sys[b].deps@[k]);
        assert(0 <= k < order[a].deps@.len() && c.contains(order[a].deps@[k]));
    }
}

#[verifier::rlimit(100)]
pub proof fn lemma_complete_no_cycle(sys: Seq<SysDecl>, order: Seq<SysDecl>)
    requires
        topo_ok(order),
        drawn_from(order, sys),
        forall|id: u64| has_sys(sys, id) ==> #[trigger] has_sys(order, id),
    ensures
        !has_cycle(sys),
{
    if has_cycle(sys) {
        let c = choose|c: Set<u64>| #[trigger] stuck_set(sys, c);
        lemma_stuck_transfer(sys, order, c);
        let x = choose|x: u64| c.contains(x);
        assert(has_sys(sys, x));
        assert(has_sys(order, x));
        let a = choose|a: int| 0 <= a < order.len() && (#[trigger] order[a]).id == x;
        lemma_stuck_excluded(order, c, a);
        assert(false);
    }
}

/// A group of systems registered together under one track.
pub struct Bundle {
    pub systems: Vec<SysDecl>,
}

/// The mutable accumulation phase of one track.
pub struct TrackBuilder {
    pub systems: Vec<SysDecl>,
}

/// The immutable, repeatedly invocable form of one track: its systems in
/// dependency order.
#[derive(Debug)]
pub struct CompiledTrack {
    pub order: Vec<SysDecl>,
}

impl CompiledTrack {
    /// Every embedded gameplay timer is within its period.
    pub open spec fn wf(&self) -> bool {
        routines_wf(self.order@)
    }
}

impl TrackBuilder {
    /// An empty track.
    pub fn new() -> (r: TrackBuilder)
        ensures
            r.systems@.len() == 0,
    {
        TrackBuilder { systems: Vec::new() }
    }

    /// Registers one system.  Registering a name twice is a programmer error,
    /// as is handing over a gameplay system whose timer is already past its
    /// period.
    pub fn add(&mut self, routine: Routine, id: u64, deps: Vec<u64>)
        requires
            !has_sys(old(self).systems@, id),
            match routine {
                Routine::External => true,
                Routine::Gameplay(d) => d.wf(),
            },
        ensures
            final(self).systems@ == old(self).systems@.push(
                (SysDecl { id, deps: deps, routine }),
            ),
    {
        self.systems.push(SysDecl { id, deps, routine });
    }

    /// Compiles the track: orders its systems so that every system comes
    /// after all of its dependencies.  Fails exactly when a dependency names
    /// an unregistered system or the dependency graph is cyclic.
    #[verifier::rlimit(100)]
    #[verifier::loop_isolation(false)]
    pub fn compile(self) -> (r: Result<CompiledTrack, ScheduleError>)
        requires
            ids_unique(self.systems@),
            routines_wf(self.systems@),
        ensures
            r is Ok <==> (deps_known(self.systems@) && !has_cycle(self.systems@)),
            (r matches Ok(ct) ==> {
                &&& ct.wf()
                &&& ct.order@.len() == self.systems@.len()
                &&& ids_unique(ct.order@)
                &&& topo_ok(ct.order@)
                &&& drawn_from(ct.order@, self.systems@)
                &&& forall|id: u64| #[trigger]
                    has_sys(ct.order@, id) <==> has_sys(self.systems@, id)
            }),
            (r matches Err(e) ==> match e {
                ScheduleError::UnknownDependency(d) => !has_sys(self.systems@, d)
                    && dep_referenced(self.systems@, d),
                ScheduleError::CyclicDependency => deps_known(self.systems@) && has_cycle(
                    self.systems@,
                ),
            }),
    {
        let ghost sys = self.systems@;
        let n: usize = self.systems.len();

        // Reject any dependency on an unregistered name.
        let mut i: usize = 0;
        while i < n
            invariant
                n == sys.len(),
                self.systems@ == sys,
                i <= n,
                forall|a: int, b: int|
                    0 <= a < i && 0 <= b < sys[a].deps@.len() ==> has_sys(
                        sys,
                        #[trigger] sys[a].deps@[b],
                    ),
            decreases n - i,
        {
            let dn: usize = self.systems[i].deps.len();
            let mut kk: usize = 0;
            while kk < dn
                invariant
                    n == sys.len(),
                    self.systems@ == sys,
                    i < n,
                    dn == sys[i as int].deps@.len(),
                    kk <= dn,
                    forall|b: int| 0 <= b < kk ==> has_sys(sys, #[trigger] sys[i as int].deps@[b]),
                decreases dn - kk,
            {
                let d: u64 = self.systems[i].deps[kk];
                if !contains_sys(&self.systems, d) {
                    proof {
                        assert(sys[i as int].deps@[kk as int] == d);
                        assert(dep_referenced(sys, d));
                        assert(!deps_known(sys));
                    }
                    return Err(ScheduleError::UnknownDependency(d));
                }
                kk = kk + 1;
            }
            i = i + 1;
        }
        proof {
            assert(deps_known(sys));
        }

        // Move the declarations into slots, then repeatedly place any system
        // whose dependencies are all placed.
        let mut src = self.systems;
        let mut slots: Vec<Option<SysDecl>> = Vec::new();
        while slots.len() < n
            invariant
                n == sys.len(),
                slots@.len() <= n,
                src@ =~= sys.skip(slots@.len() as int),
                forall|j: int| 0 <= j < slots@.len() ==> (#[trigger] slots@[j]) == Some(sys[j]),
                cnt_some(slots@) == slots@.len(),
            decreases n - slots@.len(),
        {
            let d = src.remove(0);
            proof {
                let m = slots@.len() as int;
                assert(sys.skip(m)[0] == sys[m]);
                assert(src@ =~= sys.skip(m + 1));
                lemma_cnt_push(slots@, d);
            }
            slots.push(Some(d));
        }

        let mut order: Vec<SysDecl> = Vec::new();
        while order.len() < n
            invariant
                n == sys.len(),
                slots@.len() == n,
                ids_unique(sys),
                routines_wf(sys),
                deps_known(sys),
                forall|j: int|
                    0 <= j < n && (#[trigger] slots@[j]) is Some ==> slots@[j] == Some(sys[j]),
                forall|j: int|
                    0 <= j < n ==> (((#[trigger] slots@[j]) is None) <==> has_sys(
                        order@,
                        sys[j].id,
                    )),
                drawn_from(order@, sys),
                ids_unique(order@),
                topo_ok(order@),
                routines_wf(order@),
                order@.len() + cnt_some(slots@) == n,
            decreases cnt_some(slots@),
        {
            let ghost c0 = cnt_some(slots@);
            let ghost order0 = order@;
            let mut progressed = false;
            let mut ii: usize = 0;
            while ii < n
                invariant
                    n == sys.len(),
                    slots@.len() == n,
                    ids_unique(sys),
                    routines_wf(sys),
                    deps_known(sys),
                    forall|j: int|
                        0 <= j < n && (#[trigger] slots@[j]) is Some ==> slots@[j] == Some(sys[j]),
                    forall|j: int|
                        0 <= j < n ==> (((#[trigger] slots@[j]) is None) <==> has_sys(
                            order@,
                            sys[j].id,
                        )),
                    drawn_from(order@, sys),
                    ids_unique(order@),
                    topo_ok(order@),
                    routines_wf(order@),
                    order@.len() + cnt_some(slots@) == n,
                    ii <= n,
                    progressed ==> cnt_some(slots@) < c0,
                    !progressed ==> cnt_some(slots@) == c0 && order@ == order0,
                    !progressed ==> forall|j: int|
                        0 <= j < ii && (#[trigger] slots@[j]) is Some ==> !deps_ok_spec(
                            sys[j],
                            order@,
                        ),
                decreases n - ii,
            {
                let place = match &slots[ii] {
                    Some(d) => deps_ok(d, &order),
                    None => false,
                };
                if place {
                    proof {
                        assert(slots@[ii as int] is Some);
                        assert(deps_ok_spec(slots@[ii as int].unwrap(), order@));
                        assert(slots@[ii as int].unwrap() == sys[ii as int]);
                        lemma_cnt_clear(slots@, ii as int);
                    }
                    let decl = take_slot(&mut slots, ii).unwrap();
                    let ghost pre = order@;
                    let ghost slots_now = slots@;
                    order.push(decl);
                    progressed = true;
                    proof {
                        assert(decl == sys[ii as int]);
                        assert(!has_sys(pre, decl.id));
                        lemma_place_step(sys, pre, decl, ii as int);
                        assert forall|j: int|
                            0 <= j < n implies (((#[trigger] slots@[j]) is None) <==> has_sys(
                            order@,
                            sys[j].id,
                        )) by {
                            assert(order@ == pre.push(decl));
                            assert(has_sys(pre.push(decl), sys[j].id) <==> (has_sys(pre, sys[j].id)
                                || sys[j].id == decl.id));
                            if j != ii {
                                assert(slots@[j] == slots_now[j]);
                                if sys[j].id == decl.id {
                                    assert(sys[j].id == sys[ii as int].id);
                                    assert(false);
                                }
                            }
                        }
                    }
                }
                ii = ii + 1;
            }
            if !progressed {
                proof {
                    lemma_stuck_cycle(sys, order@, slots@);
                }
                return Err(ScheduleError::CyclicDependency);
            }
        }

        proof {
            assert(cnt_some(slots@) == 0);
            assert forall|j: int| 0 <= j < n implies has_sys(order@, (#[trigger] sys[j]).id) by {
                assert(slots@[j] is None) by {
                    if slots@[j] is Some {
                        lemma_cnt_is_pos(slots@, j);
                    }
                }
            }
            assert forall|id: u64| has_sys(sys, id) implies #[trigger] has_sys(order@, id) by {
                let j = choose|j: int| 0 <= j < sys.len() && (#[trigger] sys[j]).id == id;
                assert(has_sys(order@, sys[j].id));
            }
            assert forall|id: u64| #[trigger] has_sys(order@, id) implies has_sys(sys, id) by {
                let a = choose|a: int| 0 <= a < order@.len() && (#[trigger] order@[a]).id == id;
                assert(drawn_from(order@, sys));
                let b = choose|b: int| 0 <= b < n && (#[trigger] order@[a]) == sys[b];
                assert(sys[b].id == id);
            }
            lemma_complete_no_cycle(sys, order@);
        }
        Ok(CompiledTrack { order })
    }
}

/// An occupied slot makes the count positive.
pub proof fn lemma_cnt_is_pos(s: Seq<Option<SysDecl>>, j: int)
    requires
        0 <= j < s.len(),
        s[j] is Some,
    ensures
        cnt_some(s) > 0,
    decreases s.len(),
{
    if j == s.len() - 1 {
    } else {
        lemma_cnt_is_pos(s.drop_last(), j);
    }
}

/// Whether some system of `v` is named `id`.
fn contains_sys(v: &Vec<SysDecl>, id: u64) -> (r: bool)
    ensures
        r == has_sys(v@, id),
{
    let n: usize = v.len();
    let mut i: usize = 0;
    while i < n
        invariant
            n == v@.len(),
            i <= n,
            forall|j: int| 0 <= j < i ==> (#[trigger] v@[j]).id != id,
        decreases n - i,
    {
        if v[i].id == id {
            proof {
                assert((v@[i as int]).id == id);
            }
            return true;
        }
        i = i + 1;
    }
    proof {
        if has_sys(v@, id) {
            let j = choose|j: int| 0 <= j < v@.len() && (#[trigger] v@[j]).id == id;
            assert((v@[j]).id != id);
        }
    }
    false
}

/// Whether all dependencies of `d` are already placed in `order`.
fn deps_ok(d: &SysDecl, order: &Vec<SysDecl>) -> (r: bool)
    ensures
        r == deps_ok_spec(*d, order@),
{
    let n: usize = d.deps.len();
    let mut i: usize = 0;
    while i < n
        invariant
            n == d.deps@.len(),
            i <= n,
            forall|j: int| 0 <= j < i ==> has_sys(order@, #[trigger] d.deps@[j]),
        decreases n - i,
    {
        let dep: u64 = d.deps[i];
        if !contains_sys(order, dep) {
            proof {
                assert(!has_sys(order@, d.deps@[i as int]));
            }
            return false;
        }
        i = i + 1;
    }
    true
}

/// Moves the declaration out of slot `i`, leaving the slot empty.
fn take_slot(v: &mut Vec<Option<SysDecl>>, i: usize) -> (r: Option<SysDecl>)
    requires
        i < old(v)@.len(),
    ensures
        r == old(v)@[i as int],
        final(v)@ == old(v)@.update(i as int, None::<SysDecl>),
{
    let r = v.remove(i);
    v.insert(i, None);
    proof {
        assert(v@ =~= old(v)@.update(i as int, None::<SysDecl>));
    }
    r
}


/// What one system does to one frame: the gameplay system advances its timer
/// against the frame's delta time and, on reaching its period, flips the
/// sprite entities; host-engine systems leave the modeled store as it is.
pub open spec fn run_one(d: SysDecl, delta: u64, m: Map<u64, Record>) -> (SysDecl, Map<
    u64,
    Record,
>) {
    match d.routine {
        Routine::External => (d, m),
        Routine::Gameplay(g) => (
            (SysDecl {
                routine: Routine::Gameplay(Demo { timer: demo::step_timer(g.timer, delta) }),
                ..d
            }),
            if demo::triggers(g.timer, delta) {
                demo::flip_map(m)
            } else {
                m
            },
        ),
    }
}

/// One frame of a whole track: its systems run in order, each seeing the
/// entity map the previous one left.
pub open spec fn run_systems(order: Seq<SysDecl>, delta: u64, m: Map<u64, Record>) -> (Seq<
    SysDecl,
>, Map<u64, Record>)
    decreases order.len(),
{
    if order.len() == 0 {
        (order, m)
    } else {
        let stepped = run_one(order[0], delta, m);
        let rest = run_systems(order.skip(1), delta, stepped.1);
        (seq![stepped.0] + rest.0, rest.1)
    }
}

/// Running a track changes neither a system's name nor its dependencies, and
/// keeps every gameplay timer within its period.
pub proof fn lemma_run_systems_frame(order: Seq<SysDecl>, delta: u64, m: Map<u64, Record>)
    ensures
        run_systems(order, delta, m).0.len() == order.len(),
        forall|j: int|
            0 <= j < order.len() ==> (#[trigger] run_systems(order, delta, m).0[j]).id
                == order[j].id && run_systems(order, delta, m).0[j].deps == order[j].deps,
        routines_wf(order) ==> routines_wf(run_systems(order, delta, m).0),
    decreases order.len(),
{
    if order.len() > 0 {
        let stepped = run_one(order[0], delta, m);
        lemma_run_systems_frame(order.skip(1), delta, stepped.1);
        let out = run_systems(order, delta, m).0;
        let rest = run_systems(order.skip(1), delta, stepped.1).0;
        assert(out == seq![stepped.0] + rest);
        assert(out[0] == stepped.0);
        assert forall|j: int| 0 <= j < order.len() implies (#[trigger] out[j]).id == order[j].id
            && out[j].deps == order[j].deps by {
            if j > 0 {
                assert(out[j] == rest[j - 1]);
                assert(order.skip(1)[j - 1] == order[j]);
            }
        }
        if routines_wf(order) {
            assert forall|j: int| 0 <= j < order.skip(1).len() implies match (#[trigger] order.skip(
                1,
            )[j]).routine {
                Routine::External => true,
                Routine::Gameplay(d) => d.wf(),
            } by {
                assert(order.skip(1)[j] == order[j + 1]);
            }
            assert forall|j: int| 0 <= j < out.len() implies match (#[trigger] out[j]).routine {
                Routine::External => true,
                Routine::Gameplay(d) => d.wf(),
            } by {
                if j > 0 {
                    assert(out[j] == rest[j - 1]);
                }
            }
        }
    }
}

impl CompiledTrack {
    /// Executes exactly one frame's worth of this track's systems, in their
    /// compiled dependency order, against the store.
    pub fn dispatch(&mut self, store: &mut Store)
        requires
            old(self).wf(),
            old(store).wf(),
        ensures
            final(self).wf(),
            final(store).wf(),
            final(self).order@ == run_systems(
                old(self).order@,
                old(store).delta,
                old(store).entities@,
            ).0,
            final(store).entities@ == run_systems(
                old(self).order@,
                old(store).delta,
                old(store).entities@,
            ).1,
            final(self).order@.len() == old(self).order@.len(),
            forall|j: int|
                0 <= j < old(self).order@.len() ==> (#[trigger] final(self).order@[j]).id == old(
                    self,
                ).order@[j].id && final(self).order@[j].deps == old(self).order@[j].deps,
            same_meta(old(store), final(store)),
    {
        let ghost ord0 = self.order@;
        let ghost m0 = store.entities@;
        let ghost delta0 = store.delta;
        let n: usize = self.order.len();
        proof {
            assert(ord0.skip(0) =~= ord0);
            assert(self.order@.take(0) + run_systems(ord0, delta0, m0).0 =~= run_systems(
                ord0,
                delta0,
                m0,
            ).0);
        }
        let mut i: usize = 0;
        while i < n
            invariant
                old(store).wf(),
                store.wf(),
                n == self.order@.len(),
                ord0.len() == n,
                i <= n,
                delta0 == store.delta,
                routines_wf(self.order@),
                forall|j: int| i <= j < n ==> (#[trigger] self.order@[j]) == ord0[j],
                run_systems(ord0, delta0, m0).0 == self.order@.take(i as int) + run_systems(
                    ord0.skip(i as int),
                    delta0,
                    store.entities@,
                ).0,
                run_systems(ord0, delta0, m0).1 == run_systems(
                    ord0.skip(i as int),
                    delta0,
                    store.entities@,
                ).1,
                store.next_entity == old(store).next_entity,
                store.next_handle == old(store).next_handle,
                store.delta == old(store).delta,
                store.screen_w == old(store).screen_w,
                store.screen_h == old(store).screen_h,
                store.ui_res == old(store).ui_res,
                store.sprites_res == old(store).sprites_res,
            decreases n - i,
        {
            let ghost m_pre = store.entities@;
            let ghost order_pre = self.order@;
            let mut decl = self.order.remove(i);
            proof {
                assert(decl == ord0[i as int]);
            }
            match &mut decl.routine {
                Routine::Gameplay(g) => {
                    g.run(store);
                },
                Routine::External => {},
            }
            self.order.insert(i, decl);
            proof {
                let stepped = run_one(ord0[i as int], delta0, m_pre);
                assert(decl == stepped.0);
                assert(store.entities@ == stepped.1);
                assert(self.order@ =~= order_pre.update(i as int, decl));
                assert(ord0.skip(i as int)[0] == ord0[i as int]);
                assert(ord0.skip(i as int).skip(1) =~= ord0.skip(i as int + 1));
                assert(run_systems(ord0.skip(i as int), delta0, m_pre).0 == seq![stepped.0]
                    + run_systems(ord0.skip(i as int + 1), delta0, stepped.1).0);
                assert(run_systems(ord0.skip(i as int), delta0, m_pre).1 == run_systems(
                    ord0.skip(i as int + 1),
                    delta0,
                    stepped.1,
                ).1);
                assert(self.order@.take(i as int + 1) =~= order_pre.take(i as int).push(decl));
                assert(order_pre.take(i as int) =~= self.order@.take(i as int));
                assert(self.order@.take(i as int) + (seq![stepped.0] + run_systems(
                    ord0.skip(i as int + 1),
                    delta0,
                    stepped.1,
                ).0) =~= self.order@.take(i as int + 1) + run_systems(
                    ord0.skip(i as int + 1),
                    delta0,
                    stepped.1,
                ).0);
                assert forall|j: int| i + 1 <= j < n implies (#[trigger] self.order@[j])
                    == ord0[j] by {
                    assert(self.order@[j] == order_pre[j]);
                }
                assert(routines_wf(self.order@)) by {
                    assert forall|j: int| 0 <= j < self.order@.len() implies match (
                    #[trigger] self.order@[j]).routine {
                        Routine::External => true,
                        Routine::Gameplay(d) => d.wf(),
                    } by {
                        if j != i {
                            assert(self.order@[j] == order_pre[j]);
                        }
                    }
                }
            }
            i = i + 1;
        }
        proof {
            assert(ord0.skip(n as int) =~= Seq::<SysDecl>::empty());
            assert(run_systems(ord0.skip(n as int), delta0, store.entities@).0
                =~= Seq::<SysDecl>::empty());
            assert(self.order@.take(n as int) =~= self.order@);
            assert(self.order@ + Seq::<SysDecl>::empty() =~= self.order@);
            lemma_run_systems_frame(ord0, delta0, m0);
        }
    }
}

/// A frame of a track neither creates nor destroys entities.
pub proof fn lemma_run_systems_dom(order: Seq<SysDecl>, delta: u64, m: Map<u64, Record>)
    ensures
        run_systems(order, delta, m).1.dom() == m.dom(),
    decreases order.len(),
{
    if order.len() > 0 {
        let stepped = run_one(order[0], delta, m);
        assert(stepped.1.dom() == m.dom()) by {
            match order[0].routine {
                Routine::External => {},
                Routine::Gameplay(g) => {
                    demo::lemma_flip_map_dom(m);
                },
            }
        }
        lemma_run_systems_dom(order.skip(1), delta, stepped.1);
    }
}

/// A track whose systems declare no dependencies cannot be cyclic.
pub proof fn lemma_no_deps_no_cycle(s: Seq<SysDecl>)
    requires
        forall|i: int| 0 <= i < s.len() ==> (#[trigger] s[i]).deps@.len() == 0,
    ensures
        !has_cycle(s),
        deps_known(s),
{
    if has_cycle(s) {
        let c = choose|c: Set<u64>| #[trigger] stuck_set(s, c);
        let x = choose|x: u64| c.contains(x);
        assert(has_sys(s, x));
        let i = choose|i: int| 0 <= i < s.len() && (#[trigger] s[i]).id == x;
        assert(c.contains(s[i].id));
        let k = choose|k: int| 0 <= k < s[i].deps@.len() && c.contains(s[i].deps@[k]);
        assert(false);
    }
}

/// Chooses, for a pair of a data type and a per-track content type, which
/// track a call addresses.  The two spec functions say which part is selected
/// and how a changed part is put back.
pub trait DispatcherSelector<Arg, Res> {
    /// The part of `a` that this selector addresses.
    spec fn selects(a: Arg) -> Res;

    /// `a` with the addressed part replaced by `r`.
    spec fn stores(a: Arg, r: Res) -> Arg;

    /// Borrows the addressed part mutably.
    fn select(builder: &mut Arg) -> (r: &mut Res)
        ensures
            *r == Self::selects(*old(builder)),
            *final(builder) == Self::stores(*old(builder), *final(r)),
    ;

    /// Putting a part back and selecting again yields that part.
    proof fn selects_stores(a: Arg, r: Res)
        ensures
            Self::selects(Self::stores(a, r)) == r,
    ;
}

/// Selects the track that runs every frame.
pub struct Base;

/// Selects the track that runs only while the in-game screen is active.
pub struct Adv;

/// The compiled pair of tracks, ready to be dispatched each frame.
#[derive(Debug)]
pub struct GameData {
    /// The track every screen dispatches.
    pub basic: CompiledTrack,
    /// The track only the in-game screen dispatches.
    pub adv: CompiledTrack,
}

/// The accumulation phase of the pair of tracks.
pub struct GameDataBuilder {
    /// Systems of the always-running track.
    pub basic: TrackBuilder,
    /// Systems of the in-game track.
    pub adv: TrackBuilder,
}

impl DispatcherSelector<GameData, CompiledTrack> for Base {
    open spec fn selects(a: GameData) -> CompiledTrack {
        a.basic
    }

    open spec fn stores(a: GameData, r: CompiledTrack) -> GameData {
        GameData { basic: r, ..a }
    }

    fn select(builder: &mut GameData) -> (r: &mut CompiledTrack) {
        &mut builder.basic
    }

    proof fn selects_stores(a: GameData, r: CompiledTrack) {
    }
}

impl DispatcherSelector<GameDataBuilder, TrackBuilder> for Base {
    open spec fn selects(a: GameDataBuilder) -> TrackBuilder {
        a.basic
    }

    open spec fn stores(a: GameDataBuilder, r: TrackBuilder) -> GameDataBuilder {
        GameDataBuilder { basic: r, ..a }
    }

    fn select(builder: &mut GameDataBuilder) -> (r: &mut TrackBuilder) {
        &mut builder.basic
    }

    proof fn selects_stores(a: GameDataBuilder, r: TrackBuilder) {
    }
}

impl DispatcherSelector<GameData, CompiledTrack> for Adv {
    open spec fn selects(a: GameData) -> CompiledTrack {
        a.adv
    }

    open spec fn stores(a: GameData, r: CompiledTrack) -> GameData {
        GameData { adv: r, ..a }
    }

    fn select(builder: &mut GameData) -> (r: &mut CompiledTrack) {
        &mut builder.adv
    }

    proof fn selects_stores(a: GameData, r: CompiledTrack) {
    }
}

impl DispatcherSelector<GameDataBuilder, TrackBuilder> for Adv {
    open spec fn selects(a: GameDataBuilder) -> TrackBuilder {
        a.adv
    }

    open spec fn stores(a: GameDataBuilder, r: TrackBuilder) -> GameDataBuilder {
        GameDataBuilder { adv: r, ..a }
    }

    fn select(builder: &mut GameDataBuilder) -> (r: &mut TrackBuilder) {
        &mut builder.adv
    }

    proof fn selects_stores(a: GameDataBuilder, r: TrackBuilder) {
    }
}

impl GameData {
    /// Both tracks are well formed.
    pub open spec fn wf(&self) -> bool {
        self.basic.wf() && self.adv.wf()
    }

    /// Dispatches the selected track for one frame.
    pub fn update<D: DispatcherSelector<GameData, CompiledTrack>>(
        &mut self,
        _selector: D,
        store: &mut Store,
    )
        requires
            D::selects(*old(self)).wf(),
            old(store).wf(),
        ensures
            final(store).wf(),
            same_meta(old(store), final(store)),
            D::selects(*final(self)).order@ == run_systems(
                D::selects(*old(self)).order@,
                old(store).delta,
                old(store).entities@,
            ).0,
            final(store).entities@ == run_systems(
                D::selects(*old(self)).order@,
                old(store).delta,
                old(store).entities@,
            ).1,
            *final(self) == D::stores(*old(self), D::selects(*final(self))),
            D::selects(*final(self)).wf(),
    {
        let ghost a0 = *old(self);
        let ghost d0 = store.delta;
        let ghost m0 = store.entities@;
        let track = D::select(self);
        track.dispatch(store);
        proof {
            let ftr = choose|ftr: CompiledTrack| #![auto]
                *self == D::stores(a0, ftr) && ftr.order@ == run_systems(
                    D::selects(a0).order@,
                    d0,
                    m0,
                ).0 && ftr.wf();
            D::selects_stores(a0, ftr);
        }
    }
}

impl GameDataBuilder {
    /// An empty pair of tracks.
    pub fn new() -> (r: GameDataBuilder)
        ensures
            r.basic.systems@.len() == 0,
            r.adv.systems@.len() == 0,
    {
        GameDataBuilder { basic: TrackBuilder::new(), adv: TrackBuilder::new() }
    }

    /// Registers one system with the selected track.  Registering a name the
    /// track already holds is a programmer error.
    pub fn with<D: DispatcherSelector<GameDataBuilder, TrackBuilder>>(
        self,
        _selector: D,
        routine: Routine,
        id: u64,
        deps: Vec<u64>,
    ) -> (r: GameDataBuilder)
        requires
            !has_sys(D::selects(self).systems@, id),
            match routine {
                Routine::External => true,
                Routine::Gameplay(d) => d.wf(),
            },
        ensures
            D::selects(r).systems@ == D::selects(self).systems@.push(
                (SysDecl { id, deps: deps, routine }),
            ),
            r == D::stores(self, D::selects(r)),
    {
        let ghost a0 = self;
        let mut this = self;
        let track = D::select(&mut this);
        track.add(routine, id, deps);
        proof {
            let ftr = choose|ftr: TrackBuilder| #![auto]
                this == D::stores(a0, ftr) && ftr.systems@ == D::selects(a0).systems@.push(
                    (SysDecl { id, deps: deps, routine }),
                );
            D::selects_stores(a0, ftr);
        }
        this
    }

    /// Registers a pre-assembled group of systems with the selected track.
    /// The group must not repeat a name nor reuse one the track already holds.
    pub fn with_bundle<D: DispatcherSelector<GameDataBuilder, TrackBuilder>>(
        self,
        _selector: D,
        bundle: Bundle,
    ) -> (r: Result<GameDataBuilder, ScheduleError>)
        requires
            ids_unique(D::selects(self).systems@ + bundle.systems@),
            routines_wf(bundle.systems@),
        ensures
            r is Ok,
            (r matches Ok(b) ==> D::selects(b).systems@ == D::selects(self).systems@
                + bundle.systems@ && b == D::stores(self, D::selects(b))),
    {
        let ghost pre = D::selects(self).systems@;
        let ghost bs = bundle.systems@;
        let mut this = self;
        let track = D::select(&mut this);
        let mut src = bundle.systems;
        let ghost total = pre + bs;
        proof {
            assert(track.systems@ =~= total.take(pre.len() as int));
        }
        while src.len() > 0
            invariant
                total == pre + bs,
                track.systems@.len() >= pre.len(),
                track.systems@.len() <= total.len(),
                track.systems@ =~= total.take(track.systems@.len() as int),
                src@ =~= total.skip(track.systems@.len() as int),
                ids_unique(total),
                routines_wf(bs),
            decreases src@.len(),
        {
            let ghost m = track.systems@.len() as int;
            proof {
                assert(m >= pre.len());
                assert(m < total.len());
                assert(total.skip(m)[0] == total[m]);
            }
            let d = src.remove(0);
            proof {
                assert(d == total[m]);
                assert(src@ =~= total.skip(m + 1));
                assert(!has_sys(track.systems@, d.id)) by {
                    if has_sys(track.systems@, d.id) {
                        let j = choose|j: int|
                            0 <= j < track.systems@.len() && (#[trigger] track.systems@[j]).id
                                == d.id;
                        assert(total[j].id == total[m].id);
                    }
                }
                assert(match d.routine {
                    Routine::External => true,
                    Routine::Gameplay(g) => g.wf(),
                }) by {
                    assert(bs[m - pre.len()] == total[m]);
                }
            }
            track.add(d.routine, d.id, d.deps);
            proof {
                assert(track.systems@ =~= total.take(track.systems@.len() as int));
            }
        }
        proof {
            assert(track.systems@ =~= total);
        }
        proof {
            let ftr = choose|ftr: TrackBuilder| #![auto]
                this == D::stores(self, ftr) && ftr.systems@ == D::selects(self).systems@
                    + bundle.systems@;
            D::selects_stores(self, ftr);
        }
        Ok(this)
    }

    /// Compiles both tracks into their immutable runnable form.  Fails
    /// exactly when some track references an unregistered system or has a
    /// cyclic dependency graph.
    pub fn build(self) -> (r: Result<GameData, ScheduleError>)
        requires
            ids_unique(self.basic.systems@),
            ids_unique(self.adv.systems@),
            routines_wf(self.basic.systems@),
            routines_wf(self.adv.systems@),
        ensures
            r is Ok <==> (deps_known(self.basic.systems@) && !has_cycle(self.basic.systems@)
                && deps_known(self.adv.systems@) && !has_cycle(self.adv.systems@)),
            (r matches Ok(g) ==> {
                &&& g.wf()
                &&& g.basic.order@.len() == self.basic.systems@.len()
                &&& ids_unique(g.basic.order@)
                &&& topo_ok(g.basic.order@)
                &&& drawn_from(g.basic.order@, self.basic.systems@)
                &&& forall|id: u64| #[trigger]
                    has_sys(g.basic.order@, id) <==> has_sys(self.basic.systems@, id)
                &&& g.adv.order@.len() == self.adv.systems@.len()
                &&& ids_unique(g.adv.order@)
                &&& topo_ok(g.adv.order@)
                &&& drawn_from(g.adv.order@, self.adv.systems@)
                &&& forall|id: u64| #[trigger]
                    has_sys(g.adv.order@, id) <==> has_sys(self.adv.systems@, id)
            }),
            (r matches Err(e) ==> match e {
                ScheduleError::UnknownDependency(d) => (!has_sys(self.basic.systems@, d)
                    && dep_referenced(self.basic.systems@, d)) || (!has_sys(self.adv.systems@, d)
                    && dep_referenced(self.adv.systems@, d)),
                ScheduleError::CyclicDependency => (deps_known(self.basic.systems@) && has_cycle(
                    self.basic.systems@,
                )) || (deps_known(self.adv.systems@) && has_cycle(self.adv.systems@)),
            }),
    {
        let basic = match self.basic.compile() {
            Ok(t) => t,
            Err(e) => {
                return Err(e);
            },
        };
        let adv = match self.adv.compile() {
            Ok(t) => t,
            Err(e) => {
                return Err(e);
            },
        };
        Ok(GameData { basic, adv })
    }
}

} // verus!
