//! The managed-creation facade and the scope reaper.
//!
//! Managed creation reads the currently active scope, creates an entity
//! through the substrate's normal construction path, and stamps it with the
//! scope's identifier — unconditionally, before the caller attaches anything
//! else. Popping a scope reaps it: every entity stamped with the closed
//! scope's identifier is deleted and the substrate's maintenance step is
//! forced to completion, so the caller observes a consistent world the moment
//! the pop returns.
//!
//! Membership is tracked by the tag component itself rather than by a
//! per-scope ledger of handles: the stamp survives independently of any
//! auxiliary bookkeeping and composes with the substrate's own join
//! machinery, at the cost of one component slot per managed entity and a
//! sweep that scans all live entities filtered by tag equality.

use vstd::prelude::*;

use crate::model::{model_attach, model_create, model_reap, model_tag, tagged_live};
use crate::world::{Entity, World};

verus! {

/// The identifiers of the handles among the first `k` elements of `s`.
pub(crate) open spec fn handle_ids_below(s: Seq<Entity>, k: int) -> Set<int> {
    Set::new(|id: int| exists|x: int| 0 <= x < k && (#[trigger] s[x])@ == id)
}

impl World {
    /// Reaps a closed scope: requests deletion of every live entity stamped
    /// with `scope_id`, then forces the maintenance step, so that no reaped
    /// entity is observed by anything that runs after the reap. Entities
    /// without the stamp, or stamped with another scope, are untouched.
    /// Reaping is total and unconditional: an entity of the scope that is
    /// already dead is absorbed silently, never an error.
    pub fn reap(&mut self, scope_id: usize)
        requires
            old(self).wf(),
        ensures
            final(self).wf(),
            final(self)@ =~= model_reap(old(self)@, scope_id as int),
            final(self).depth() == old(self).depth(),
    {
        proof {
            self.lemma_view_wf();
        }
        let victims: Vec<Entity> = self.live_tagged_with(scope_id);
        let n: usize = victims.len();
        let mut k: usize = 0;
        while k < n
            invariant
                0 <= k <= n,
                n == victims@.len(),
                self.wf(),
                old(self)@.wf(),
                forall|x: int|
                    0 <= x < n ==> tagged_live(old(self)@, scope_id as int).contains(
                        (#[trigger] victims@[x])@,
                    ),
                forall|id: int| #[trigger]
                    tagged_live(old(self)@, scope_id as int).contains(id) ==> exists|x: int|
                        0 <= x < n && victims@[x]@ == id,
                self@.next == old(self)@.next,
                self@.live == old(self)@.live,
                self@.tags == old(self)@.tags,
                self@.comps == old(self)@.comps,
                self@.pending =~= old(self)@.pending.union(
                    handle_ids_below(victims@, k as int),
                ),
                self.depth() == old(self).depth(),
            decreases n - k,
        {
            let e: Entity = victims[k];
            self.delete_entity(e);
            proof {
                assert forall|id: int|
                    old(self)@.pending.union(handle_ids_below(victims@, k as int + 1)).contains(
                        id,
                    ) implies self@.pending.contains(id) by {
                    if handle_ids_below(victims@, k as int + 1).contains(id) {
                        let x: int = choose|x: int|
                            0 <= x < k as int + 1 && (#[trigger] victims@[x])@ == id;
                        if x < k as int {
                            assert(handle_ids_below(victims@, k as int).contains(id));
                        } else {
                            assert(victims@[k as int]@ == id);
                        }
                    }
                }
                assert forall|id: int| self@.pending.contains(id) implies old(self)@.pending.union(
                    handle_ids_below(victims@, k as int + 1),
                ).contains(id) by {
                    if handle_ids_below(victims@, k as int).contains(id) {
                        let x: int = choose|x: int| 0 <= x < k as int && (#[trigger] victims@[x])@ == id;
                        assert(handle_ids_below(victims@, k as int + 1).contains(id));
                    }
                }
                assert(self@.pending =~= old(self)@.pending.union(
                    handle_ids_below(victims@, k as int + 1),
                ));
            }
            k = k + 1;
        }
        proof {
            assert forall|id: int| #[trigger]
                handle_ids_below(victims@, n as int).contains(id) == tagged_live(
                    old(self)@,
                    scope_id as int,
                ).contains(id) by {
                if handle_ids_below(victims@, n as int).contains(id) {
                    let x: int = choose|x: int| 0 <= x < n as int && (#[trigger] victims@[x])@ == id;
                    assert(tagged_live(old(self)@, scope_id as int).contains(id));
                }
                if tagged_live(old(self)@, scope_id as int).contains(id) {
                    let x: int = choose|x: int| 0 <= x < n as int && (#[trigger] victims@[x])@ == id;
                    assert(handle_ids_below(victims@, n as int).contains(id));
                }
            }
            assert(handle_ids_below(victims@, n as int) =~= tagged_live(
                old(self)@,
                scope_id as int,
            ));
        }
        self.maintain();
        proof {
            assert(self@.live =~= old(self)@.live.difference(old(self)@.pending).difference(
                tagged_live(old(self)@, scope_id as int),
            ));
            assert(self@ =~= model_reap(old(self)@, scope_id as int));
        }
    }

    /// Closes the most recent scope: pops it from the stack and reaps it, so
    /// that when this returns no live entity carries the popped scope's
    /// identifier. Popping with no scope open is a caller bug — a fatal
    /// precondition violation, never a silent no-op.
    pub fn pop_state(&mut self)
        requires
            old(self).wf(),
            old(self).depth() >= 1,
        ensures
            final(self).wf(),
            final(self).depth() == old(self).depth() - 1,
            final(self)@ =~= model_reap(old(self)@, old(self).depth()),
            forall|id: int| final(self)@.live.contains(id)
                ==> !(final(self)@.tags.dom().contains(id) && final(self)@.tags[id] == old(
                self,
            ).depth()),
    {
        let stale: usize = self.pop_scope();
        self.reap(stale);
        proof {
            crate::laws::lemma_reap_clears_scope(old(self)@, old(self).depth());
        }
    }

    /// Creates a managed entity: reads the currently active scope, creates an
    /// entity through the substrate's normal construction path, stamps it
    /// with the scope's identifier, and returns a builder so the caller can
    /// attach domain components before committing. The stamp is attached
    /// here, at builder creation, unconditionally — whatever else the caller
    /// adds, the entity already belongs to the active scope. Creating a
    /// managed entity with no scope open is a caller bug and is excluded by
    /// `requires`.
    pub fn create_managed_entity(&mut self) -> (b: EntityBuilder)
        requires
            old(self).wf(),
            old(self).depth() >= 1,
        ensures
            final(self).wf(),
            final(self).depth() == old(self).depth(),
            b@ == old(self)@.next,
            final(self)@ =~= model_tag(
                model_create(old(self)@),
                old(self)@.next,
                old(self).depth(),
            ),
            final(self)@.live.contains(b@),
            final(self)@.tags.dom().contains(b@),
            final(self)@.tags[b@] == old(self).depth(),
    {
        let active_state: usize = self.active_scope();
        let e: Entity = self.create_entity();
        self.tag(e, active_state);
        EntityBuilder { entity: e }
    }

    /// The convenience no-builder variant of managed creation: the entity is
    /// created, stamped with the active scope, and committed directly.
    pub fn create_managed(&mut self) -> (e: Entity)
        requires
            old(self).wf(),
            old(self).depth() >= 1,
        ensures
            final(self).wf(),
            final(self).depth() == old(self).depth(),
            e@ == old(self)@.next,
            final(self)@ =~= model_tag(
                model_create(old(self)@),
                old(self)@.next,
                old(self).depth(),
            ),
            final(self)@.live.contains(e@),
            final(self)@.tags.dom().contains(e@),
            final(self)@.tags[e@] == old(self).depth(),
    {
        self.create_managed_entity().build()
    }
}

/// A builder for a managed entity. The entity already exists and already
/// carries its scope stamp; the builder decouples domain-component attachment
/// from the final commit, and committing consumes the builder, so an entity
/// is committed at most once.
pub struct EntityBuilder {
    entity: Entity,
}

impl View for EntityBuilder {
    type V = int;

    /// The identifier of the entity under construction.
    closed spec fn view(&self) -> int {
        self.entity@
    }
}

impl EntityBuilder {
    /// Attaches the domain component value `value` to the entity under
    /// construction. The scope stamp is untouched: it was attached when the
    /// builder was created.
    pub fn with(self, world: &mut World, value: u64) -> (b: EntityBuilder)
        requires
            old(world).wf(),
            old(world)@.live.contains(self@),
        ensures
            b@ == self@,
            final(world).wf(),
            final(world)@ =~= model_attach(old(world)@, self@, value),
            final(world).depth() == old(world).depth(),
    {
        world.attach_component(self.entity, value);
        self
    }

    /// Commits the entity and hands out its handle. Consumes the builder:
    /// there is no second commit.
    pub fn build(self) -> (e: Entity)
        ensures
            e@ == self@,
    {
        self.entity
    }
}

} // verus!
