//! The entity substrate.
//!
//! [`World`] issues opaque entity handles, stores per-entity component data
//! (including the scope tag the managed path attaches), queues deletion
//! requests, and applies them in a deferred maintenance step. Its view is the
//! [`WorldModel`] of [`crate::model`], and every operation's contract is a
//! transition of that model.

use vstd::prelude::*;

use crate::model::{
    lemma_live_below_finite, live_below, model_attach, model_create, model_delete, model_maintain,
    model_tag, tagged_live, WorldModel,
};
use crate::scope::ManagedResource;

verus! {

/// An opaque, comparable entity handle issued by the substrate. The manager
/// never interprets its inner structure, only stores and compares it. A
/// handle may refer to a dead entity after deletion has been applied.
#[derive(Clone, Copy, Debug, Hash, PartialEq, Eq, Structural)]
pub struct Entity {
    id: usize,
}

impl View for Entity {
    type V = int;

    /// The identifier this handle carries.
    closed spec fn view(&self) -> int {
        self.id as int
    }
}

/// Everything the substrate stores for one issued entity.
pub(crate) struct EntityRecord {
    /// Cleared when a queued deletion of this entity is applied.
    pub(crate) alive: bool,
    /// The scope tag, attached once by the managed creation path; absent on
    /// entities created directly through the substrate.
    pub(crate) tag: Option<usize>,
    /// Domain component values, in attachment order.
    pub(crate) components: Vec<u64>,
}

/// The entity substrate, together with the scope stack that the managed
/// facade (see [`crate::managed`]) layers on top of it. Each instance is an
/// isolated world: the stack is injected state, not a hidden singleton.
pub struct World {
    /// Record of every issued entity, indexed by its identifier.
    pub(crate) records: Vec<EntityRecord>,
    /// Identifiers whose deletion is queued but not yet applied.
    pub(crate) pending: Vec<usize>,
    /// The scope stack the managed facade reads and mutates.
    pub(crate) managed: ManagedResource,
}

impl View for World {
    type V = WorldModel;

    /// The abstract substrate state: issued identifiers are exactly the
    /// record indices, and an entity is live while its record says so.
    closed spec fn view(&self) -> WorldModel {
        WorldModel {
            next: self.records@.len() as int,
            live: Set::new(
                |id: int| 0 <= id < self.records@.len() && self.records@[id].alive,
            ),
            tags: Map::new(
                |id: int| 0 <= id < self.records@.len() && self.records@[id].tag is Some,
                |id: int| self.records@[id].tag->Some_0 as int,
            ),
            comps: Map::new(
                |id: int| 0 <= id < self.records@.len(),
                |id: int| self.records@[id].components@,
            ),
            pending: Set::new(
                |id: int|
                    exists|k: int|
                        0 <= k < self.pending@.len() && self.pending@[k] as int == id,
            ),
        }
    }
}

impl World {
    /// Internal soundness of the deletion queue: every queued identifier has
    /// been issued. Established by [`World::new`] and preserved by every
    /// operation.
    pub closed spec fn wf(self) -> bool {
        forall|k: int|
            0 <= k < self.pending@.len() ==> (self.pending@[k] as int) < self.records@.len()
    }

    /// The depth of the currently active scope; `0` when no scope is open.
    pub closed spec fn depth(self) -> int {
        self.managed@
    }

    /// A fresh, empty world with no scope open.
    pub fn new() -> (w: World)
        ensures
            w.wf(),
            w@ =~= WorldModel::empty(),
            w.depth() == 0,
    {
        let w = World { records: Vec::new(), pending: Vec::new(), managed: ManagedResource::new() };
        proof {
            assert(w@.live =~= Set::<int>::empty());
            assert(w@.tags =~= Map::<int, int>::empty());
            assert(w@.comps =~= Map::<int, Seq<u64>>::empty());
            assert(w@.pending =~= Set::<int>::empty());
        }
        w
    }

    /// Creates a fresh entity directly through the substrate: live, untagged,
    /// with no components. Entities created this way never carry a scope tag
    /// and are invisible to the reaper.
    pub fn create_entity(&mut self) -> (e: Entity)
        requires
            old(self).wf(),
        ensures
            final(self).wf(),
            final(self)@ =~= model_create(old(self)@),
            e@ == old(self)@.next,
            !old(self)@.live.contains(e@),
            !final(self)@.tags.dom().contains(e@),
            final(self)@.live.contains(e@),
            final(self).depth() == old(self).depth(),
    {
        let id: usize = self.records.len();
        self.records.push(EntityRecord { alive: true, tag: None, components: Vec::new() });
        proof {
            assert(self@.live =~= old(self)@.live.insert(old(self)@.next));
            assert(self@.tags =~= old(self)@.tags);
            assert(self@.comps =~= old(self)@.comps.insert(old(self)@.next, Seq::empty()));
            assert(self@.pending =~= old(self)@.pending);
            assert(self@ =~= model_create(old(self)@));
        }
        Entity { id }
    }

    /// Stamps entity `e` with scope tag `scope_id`.
    ///
    /// A tag is attached exactly once, at creation time, by the managed path;
    /// overwriting an existing tag is a caller bug and is excluded by
    /// `requires`.
    pub fn tag(&mut self, e: Entity, scope_id: usize)
        requires
            old(self).wf(),
            old(self)@.live.contains(e@),
            !old(self)@.tags.dom().contains(e@),
        ensures
            final(self).wf(),
            final(self)@ =~= model_tag(old(self)@, e@, scope_id as int),
            final(self).depth() == old(self).depth(),
    {
        let r = &mut self.records[e.id];
        r.tag = Some(scope_id);
        proof {
            assert(self.records@ =~= old(self).records@.update(e@, self.records@[e@]));
            assert(self@.live =~= old(self)@.live);
            assert(self@.tags =~= old(self)@.tags.insert(e@, scope_id as int));
            assert(self@.comps =~= old(self)@.comps);
            assert(self@.pending =~= old(self)@.pending);
            assert(self@ =~= model_tag(old(self)@, e@, scope_id as int));
        }
    }

    /// Appends the domain component value `value` to entity `e`.
    pub fn attach_component(&mut self, e: Entity, value: u64)
        requires
            old(self).wf(),
            old(self)@.live.contains(e@),
        ensures
            final(self).wf(),
            final(self)@ =~= model_attach(old(self)@, e@, value),
            final(self).depth() == old(self).depth(),
    {
        let r = &mut self.records[e.id];
        r.components.push(value);
        proof {
            assert(self.records@ =~= old(self).records@.update(e@, self.records@[e@]));
            assert(self@.live =~= old(self)@.live);
            assert(self@.tags =~= old(self)@.tags);
            assert(self@.comps =~= old(self)@.comps.insert(
                e@,
                old(self)@.comps[e@].push(value),
            ));
            assert(self@.pending =~= old(self)@.pending);
            assert(self@ =~= model_attach(old(self)@, e@, value));
        }
    }

    /// Requests deletion of entity `e`. The request is queued: `e` stays live
    /// until [`World::maintain`] applies it. Requesting deletion of an entity
    /// that is already dead is absorbed, not an error: the queued request is
    /// a no-op when applied.
    pub fn delete_entity(&mut self, e: Entity)
        requires
            old(self).wf(),
            old(self)@.knows(e@),
        ensures
            final(self).wf(),
            final(self)@ =~= model_delete(old(self)@, e@),
            final(self).depth() == old(self).depth(),
    {
        self.pending.push(e.id);
        proof {
            assert forall|x: int| old(self)@.pending.insert(e@).contains(x) implies self@
                .pending
                .contains(x) by {
                if old(self)@.pending.contains(x) {
                    let k: int = choose|k: int|
                        0 <= k < old(self).pending@.len() && old(self).pending@[k] as int == x;
                    assert(self.pending@[k] as int == x);
                } else {
                    assert(self.pending@[old(self).pending@.len() as int] as int == x);
                }
            }
            assert(self@.pending =~= old(self)@.pending.insert(e@));
            assert(self@.live =~= old(self)@.live);
            assert(self@.tags =~= old(self)@.tags);
            assert(self@.comps =~= old(self)@.comps);
            assert(self@ =~= model_delete(old(self)@, e@));
        }
    }

    /// The deferred maintenance step: applies every queued deletion, so that
    /// no deleted entity is observed live afterwards, and leaves the queue
    /// empty. Tags and components are untouched.
    pub fn maintain(&mut self)
        requires
            old(self).wf(),
        ensures
            final(self).wf(),
            final(self)@ =~= model_maintain(old(self)@),
            final(self).depth() == old(self).depth(),
    {
        let n: usize = self.pending.len();
        let mut k: usize = 0;
        while k < n
            invariant
                0 <= k <= n,
                n == self.pending@.len(),
                self.pending@ == old(self).pending@,
                self.records@.len() == old(self).records@.len(),
                self.managed == old(self).managed,
                old(self).wf(),
                self.wf(),
                forall|id: int|
                    0 <= id < self.records@.len() ==> (#[trigger] self.records@[id]).tag == old(
                        self,
                    ).records@[id].tag,
                forall|id: int|
                    0 <= id < self.records@.len() ==> (#[trigger] self.records@[id]).components
                        == old(self).records@[id].components,
                forall|id: int|
                    0 <= id < self.records@.len() ==> (#[trigger] self.records@[id]).alive == (old(
                        self,
                    ).records@[id].alive && !queued_below(old(self).pending@, k as int, id)),
            decreases n - k,
        {
            let id: usize = self.pending[k];
            let r = &mut self.records[id];
            r.alive = false;
            proof {
                assert forall|j: int| 0 <= j < self.records@.len() implies (#[trigger] self
                    .records@[j])
                    .alive == (old(self).records@[j].alive && !queued_below(
                    old(self).pending@,
                    k as int + 1,
                    j,
                )) by {
                    if j == id as int {
                        assert(queued_below(old(self).pending@, k as int + 1, j));
                    } else {
                        assert(queued_below(old(self).pending@, k as int + 1, j)
                            == queued_below(old(self).pending@, k as int, j));
                    }
                }
            }
            k = k + 1;
        }
        self.pending.clear();
        proof {
            assert forall|id: int| #[trigger]
                old(self)@.live.difference(old(self)@.pending).contains(id) implies self@
                .live
                .contains(id) by {
                assert(!queued_below(old(self).pending@, n as int, id));
            }
            assert(self@.live =~= old(self)@.live.difference(old(self)@.pending));
            assert(self@.tags =~= old(self)@.tags);
            assert(self@.comps =~= old(self)@.comps);
            assert(self@.pending =~= Set::<int>::empty());
            assert(self@ =~= model_maintain(old(self)@));
        }
    }

    /// The number of currently live entities, managed or not.
    pub fn live_count(&self) -> (n: usize)
        ensures
            n as int == self@.live.len(),
    {
        let mut n: usize = 0;
        let len: usize = self.records.len();
        let mut i: usize = 0;
        proof {
            assert(live_below(self@, 0) =~= Set::<int>::empty());
        }
        while i < len
            invariant
                0 <= i <= len,
                len == self.records@.len(),
                n as int == live_below(self@, i as int).len(),
                n as int <= i as int,
            decreases len - i,
        {
            proof {
                lemma_live_below_finite(self@, i as int);
                if self.records@[i as int].alive {
                    assert(live_below(self@, i as int + 1) =~= live_below(self@, i as int).insert(
                        i as int,
                    ));
                } else {
                    assert(live_below(self@, i as int + 1) =~= live_below(self@, i as int));
                }
            }
            if self.records[i].alive {
                n = n + 1;
            }
            i = i + 1;
        }
        proof {
            assert(live_below(self@, len as int) =~= self@.live);
        }
        n
    }

    /// Whether `e` is currently alive. Total: a handle the substrate never
    /// issued, or whose deletion has been applied, is simply not alive.
    pub fn is_alive(&self, e: Entity) -> (r: bool)
        ensures
            r == self@.live.contains(e@),
    {
        e.id < self.records.len() && self.records[e.id].alive
    }

    /// The scope tag of `e`, or `None` when `e` is unmanaged (or was never
    /// issued).
    pub fn tag_of(&self, e: Entity) -> (t: Option<usize>)
        ensures
            t == if self@.tags.dom().contains(e@) {
                Some(self@.tags[e@] as usize)
            } else {
                None::<usize>
            },
    {
        if e.id < self.records.len() {
            self.records[e.id].tag
        } else {
            None
        }
    }

    /// The view of a well-formed world is itself well-formed: it only speaks
    /// of identifiers the substrate has issued.
    pub proof fn lemma_view_wf(&self)
        requires
            self.wf(),
        ensures
            self@.wf(),
    {
        assert(self@.comps.dom() =~= Set::new(|id: int| 0 <= id < self@.next));
    }

    /// Opens a new scope one level deeper than the current one. Pure stack
    /// bookkeeping: the entity state is untouched.
    pub fn push_state(&mut self)
        requires
            old(self).wf(),
            old(self).depth() < usize::MAX,
        ensures
            final(self).wf(),
            final(self)@ =~= old(self)@,
            final(self).depth() == old(self).depth() + 1,
    {
        self.managed.push_state();
        proof {
            assert(self@.live =~= old(self)@.live);
            assert(self@.tags =~= old(self)@.tags);
            assert(self@.comps =~= old(self)@.comps);
            assert(self@.pending =~= old(self)@.pending);
        }
    }

    /// The identifier of the currently active scope — the tag every entity
    /// created through the managed path receives. Querying before any push is
    /// a caller bug and is excluded by `requires`.
    pub fn active_scope(&self) -> (d: usize)
        requires
            self.depth() >= 1,
        ensures
            d as int == self.depth(),
    {
        self.managed.active_scope()
    }

    /// Closes the most recent scope on the stack and returns its identifier,
    /// without reaping. Internal: the public pop (see [`crate::managed`])
    /// always reaps the closed scope before returning.
    pub(crate) fn pop_scope(&mut self) -> (prev: usize)
        requires
            old(self).wf(),
            old(self).depth() >= 1,
        ensures
            final(self).wf(),
            prev as int == old(self).depth(),
            final(self).depth() == old(self).depth() - 1,
            final(self)@ =~= old(self)@,
    {
        let prev: usize = self.managed.pop_state();
        proof {
            assert(self@.live =~= old(self)@.live);
            assert(self@.tags =~= old(self)@.tags);
            assert(self@.comps =~= old(self)@.comps);
            assert(self@.pending =~= old(self)@.pending);
        }
        prev
    }

    /// Joins the live entities against the scope tag: the handle of every
    /// live entity whose tag equals `scope_id`, in ascending identifier order
    /// with no duplicates. Entities without a tag are not visited.
    pub fn live_tagged_with(&self, scope_id: usize) -> (r: Vec<Entity>)
        ensures
            forall|k: int|
                0 <= k < r@.len() ==> tagged_live(self@, scope_id as int).contains(
                    (#[trigger] r@[k])@,
                ),
            forall|id: int| #[trigger]
                tagged_live(self@, scope_id as int).contains(id) ==> exists|k: int|
                    0 <= k < r@.len() && r@[k]@ == id,
            forall|p: int, q: int| 0 <= p < q < r@.len() ==> (#[trigger] r@[p])@ < (#[trigger] r@[q])@,
    {
        let mut r: Vec<Entity> = Vec::new();
        let n: usize = self.records.len();
        let mut i: usize = 0;
        while i < n
            invariant
                0 <= i <= n,
                n == self.records@.len(),
                forall|k: int| 0 <= k < r@.len() ==> 0 <= (#[trigger] r@[k])@ < i,
                forall|k: int|
                    0 <= k < r@.len() ==> tagged_live(self@, scope_id as int).contains(
                        (#[trigger] r@[k])@,
                    ),
                forall|id: int|
                    0 <= id < i && #[trigger] tagged_live(self@, scope_id as int).contains(id)
                        ==> exists|k: int| 0 <= k < r@.len() && r@[k]@ == id,
                forall|p: int, q: int|
                    0 <= p < q < r@.len() ==> (#[trigger] r@[p])@ < (#[trigger] r@[q])@,
            decreases n - i,
        {
            let ghost r0 = r@;
            let rec = &self.records[i];
            let hit: bool = match rec.tag {
                Some(t) => rec.alive && t == scope_id,
                None => false,
            };
            if hit {
                r.push(Entity { id: i });
            }
            proof {
                assert forall|id: int|
                    0 <= id < i as int + 1 && #[trigger] tagged_live(
                        self@,
                        scope_id as int,
                    ).contains(id) implies exists|k: int| 0 <= k < r@.len() && r@[k]@ == id by {
                    if id < i as int {
                        let k: int = choose|k: int| 0 <= k < r0.len() && r0[k]@ == id;
                        assert(r@[k]@ == id);
                    } else {
                        assert(hit);
                        assert(r@[r@.len() - 1]@ == id);
                    }
                }
            }
            i = i + 1;
        }
        r
    }

    /// The domain component values attached to `e`, in attachment order.
    pub fn components_of(&self, e: Entity) -> (c: Vec<u64>)
        requires
            self@.knows(e@),
        ensures
            c@ == self@.comps[e@],
    {
        let r = &self.records[e.id];
        let mut c: Vec<u64> = Vec::new();
        let n: usize = r.components.len();
        let mut k: usize = 0;
        while k < n
            invariant
                0 <= k <= n,
                n == r.components@.len(),
                c@ == r.components@.subrange(0, k as int),
            decreases n - k,
        {
            c.push(r.components[k]);
            proof {
                assert(c@ =~= r.components@.subrange(0, k as int + 1));
            }
            k = k + 1;
        }
        proof {
            assert(c@ =~= r.components@);
        }
        c
    }
}

/// `id` appears among the first `k` queued deletions of `pending`.
pub(crate) open spec fn queued_below(pending: Seq<usize>, k: int, id: int) -> bool {
    exists|x: int| 0 <= x < k && pending[x] as int == id
}

} // verus!
