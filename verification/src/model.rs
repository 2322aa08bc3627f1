//! The mathematical model of the entity substrate.
//!
//! A [`WorldModel`] is the abstract state every contract in this crate is
//! stated over: which entity identifiers have been issued, which are live,
//! which scope tag each managed entity carries, the domain components attached
//! to each entity, and which deletions are queued but not yet applied by the
//! maintenance step.

use vstd::prelude::*;

verus! {

/// Abstract state of the entity substrate.
///
/// Identifiers are issued densely: `0 <= id < next` are exactly the handles
/// ever handed out. Deletion is deferred: a deleted entity stays in `live`
/// until the maintenance step moves everything in `pending` out of `live`.
#[verifier::ext_equal]
pub ghost struct WorldModel {
    /// Identifiers `0..next` have been issued.
    pub next: int,
    /// Identifiers of the entities that are currently alive.
    pub live: Set<int>,
    /// Scope tag of each managed entity; unmanaged entities are not in the
    /// domain. A tag is attached at most once and never changes.
    pub tags: Map<int, int>,
    /// Domain component values attached to each issued entity, in attachment
    /// order.
    pub comps: Map<int, Seq<u64>>,
    /// Deletions queued but not yet applied by maintenance.
    pub pending: Set<int>,
}

impl WorldModel {
    /// The state of a freshly constructed substrate: nothing issued, nothing
    /// alive, nothing tagged, nothing queued.
    pub open spec fn empty() -> WorldModel {
        WorldModel {
            next: 0,
            live: Set::empty(),
            tags: Map::empty(),
            comps: Map::empty(),
            pending: Set::empty(),
        }
    }

    /// Every identifier the state speaks of has been issued.
    pub open spec fn wf(self) -> bool {
        &&& forall|id: int| self.live.contains(id) ==> 0 <= id < self.next
        &&& forall|id: int| self.tags.dom().contains(id) ==> 0 <= id < self.next
        &&& self.comps.dom() =~= Set::new(|id: int| 0 <= id < self.next)
        &&& forall|id: int| self.pending.contains(id) ==> 0 <= id < self.next
    }

    /// `id` is a handle this substrate has issued.
    pub open spec fn knows(self, id: int) -> bool {
        0 <= id < self.next
    }
}

/// Creation: the fresh entity gets the next identifier, starts alive,
/// untagged, and with no components.
pub open spec fn model_create(m: WorldModel) -> WorldModel {
    WorldModel {
        next: m.next + 1,
        live: m.live.insert(m.next),
        tags: m.tags,
        comps: m.comps.insert(m.next, Seq::empty()),
        pending: m.pending,
    }
}

/// Tagging: stamps entity `id` with scope tag `t`; everything else is
/// untouched.
pub open spec fn model_tag(m: WorldModel, id: int, t: int) -> WorldModel {
    WorldModel { tags: m.tags.insert(id, t), ..m }
}

/// Component attachment: appends `c` to the components of entity `id`.
pub open spec fn model_attach(m: WorldModel, id: int, c: u64) -> WorldModel {
    WorldModel { comps: m.comps.insert(id, m.comps[id].push(c)), ..m }
}

/// Deletion request: queues `id`; liveness is unchanged until maintenance.
pub open spec fn model_delete(m: WorldModel, id: int) -> WorldModel {
    WorldModel { pending: m.pending.insert(id), ..m }
}

/// Maintenance: applies every queued deletion and empties the queue.
pub open spec fn model_maintain(m: WorldModel) -> WorldModel {
    WorldModel { live: m.live.difference(m.pending), pending: Set::empty(), ..m }
}

/// The live identifiers of `m` below `k`: the part of the live set a scan of
/// the first `k` issued identifiers has seen.
pub open spec fn live_below(m: WorldModel, k: int) -> Set<int> {
    Set::new(|id: int| 0 <= id < k && m.live.contains(id))
}

/// What a scan sees is finite and no larger than the prefix it scanned.
pub proof fn lemma_live_below_finite(m: WorldModel, k: int)
    requires
        0 <= k,
    ensures
        live_below(m, k).finite(),
        live_below(m, k).len() <= k,
    decreases k,
{
    if k == 0 {
        assert(live_below(m, 0) =~= Set::<int>::empty());
    } else {
        lemma_live_below_finite(m, k - 1);
        if m.live.contains(k - 1) {
            assert(live_below(m, k) =~= live_below(m, k - 1).insert(k - 1));
        } else {
            assert(live_below(m, k) =~= live_below(m, k - 1));
        }
    }
}

/// The live entities of `m` that carry scope tag `t`: exactly what a reap of
/// scope `t` destroys.
pub open spec fn tagged_live(m: WorldModel, t: int) -> Set<int> {
    Set::new(|id: int| m.live.contains(id) && m.tags.dom().contains(id) && m.tags[id] == t)
}

/// Reaping scope `t`: every live entity tagged `t` is deleted, previously
/// queued deletions are applied along the way, and the queue is left empty.
/// Tags and components are untouched.
pub open spec fn model_reap(m: WorldModel, t: int) -> WorldModel {
    WorldModel {
        live: m.live.difference(m.pending).difference(tagged_live(m, t)),
        pending: Set::empty(),
        ..m
    }
}

} // verus!
