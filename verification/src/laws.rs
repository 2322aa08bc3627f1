//! The library-wide guarantees, stated and proved over the model of
//! [`crate::model`]. Each holds for every substrate state a sequence of
//! operations can produce, because every operation's contract is one of the
//! model transitions these lemmas quantify over.

use vstd::prelude::*;

use crate::model::{
    model_attach, model_create, model_delete, model_maintain, model_reap, model_tag, tagged_live,
    WorldModel,
};

verus! {

/// Every live managed entity belongs to a scope that is still open: its stamp
/// lies between `1` and the current depth. This is the standing invariant of
/// the managed discipline; the lemmas below show that every operation of the
/// facade preserves it, and [`lemma_ground_state_has_no_managed`] draws the
/// consequence that the stack is never empty while a managed entity is alive.
pub open spec fn tags_within_depth(m: WorldModel, depth: int) -> bool {
    forall|id: int|
        m.live.contains(id) && m.tags.dom().contains(id) ==> 1 <= #[trigger] m.tags[id] <= depth
}

/// Opening a scope only widens the bound.
pub proof fn lemma_tags_within_depth_after_push(m: WorldModel, depth: int)
    requires
        tags_within_depth(m, depth),
        0 <= depth,
    ensures
        tags_within_depth(m, depth + 1),
{
}

/// Managed creation stamps the fresh entity with the active scope, which is
/// open, so the invariant carries over.
pub proof fn lemma_tags_within_depth_after_create(m: WorldModel, depth: int)
    requires
        tags_within_depth(m, depth),
        1 <= depth,
    ensures
        tags_within_depth(model_tag(model_create(m), m.next, depth), depth),
{
    let m1 = model_tag(model_create(m), m.next, depth);
    assert forall|id: int| m1.live.contains(id) && m1.tags.dom().contains(id) implies 1
        <= #[trigger] m1.tags[id] <= depth by {
        if id != m.next {
            assert(m.live.contains(id));
            assert(m.tags.dom().contains(id));
        }
    }
}

/// Attaching a domain component touches neither liveness nor stamps.
pub proof fn lemma_tags_within_depth_after_attach(m: WorldModel, depth: int, id: int, c: u64)
    requires
        tags_within_depth(m, depth),
    ensures
        tags_within_depth(model_attach(m, id, c), depth),
{
}

/// A queued deletion changes neither liveness nor stamps until maintenance,
/// and maintenance only removes entities from the live set.
pub proof fn lemma_tags_within_depth_after_delete(m: WorldModel, depth: int, id: int)
    requires
        tags_within_depth(m, depth),
    ensures
        tags_within_depth(model_delete(m, id), depth),
        tags_within_depth(model_maintain(model_delete(m, id)), depth),
{
}

/// Popping the active scope reaps every entity stamped with it, so the
/// survivors are all stamped within the scopes that remain open.
pub proof fn lemma_tags_within_depth_after_pop(m: WorldModel, depth: int)
    requires
        tags_within_depth(m, depth),
        1 <= depth,
    ensures
        tags_within_depth(model_reap(m, depth), depth - 1),
{
    let m1 = model_reap(m, depth);
    assert forall|id: int| m1.live.contains(id) && m1.tags.dom().contains(id) implies 1
        <= #[trigger] m1.tags[id] <= depth - 1 by {
        assert(m.live.contains(id));
        assert(!tagged_live(m, depth).contains(id));
        assert(1 <= m.tags[id] <= depth);
    }
}

/// In the ground state — no scope open — no managed entity is alive: the
/// stack is never empty while a managed entity exists.
pub proof fn lemma_ground_state_has_no_managed(m: WorldModel)
    requires
        tags_within_depth(m, 0),
    ensures
        forall|id: int| m.live.contains(id) ==> !m.tags.dom().contains(id),
{
    assert forall|id: int| m.live.contains(id) implies !m.tags.dom().contains(id) by {
        if m.tags.dom().contains(id) {
            assert(1 <= m.tags[id] <= 0);
        }
    }
}

/// After a scope is reaped — as every pop does before returning — no live
/// entity carries the closed scope's identifier.
pub proof fn lemma_reap_clears_scope(m: WorldModel, t: int)
    ensures
        forall|id: int| #[trigger] model_reap(m, t).live.contains(id)
            ==> !(model_reap(m, t).tags.dom().contains(id) && model_reap(m, t).tags[id] == t),
{
    assert forall|id: int| #[trigger] model_reap(m, t).live.contains(id) implies !(model_reap(
        m,
        t,
    ).tags.dom().contains(id) && model_reap(m, t).tags[id] == t) by {
        assert(m.live.contains(id));
        assert(!tagged_live(m, t).contains(id));
    }
}

/// Entities that never went through the managed path — they carry no scope
/// stamp — are invisible to the reaper: no reap destroys them, whichever
/// scope it closes, unless their deletion was already requested independently.
pub proof fn lemma_reap_spares_unmanaged(m: WorldModel, t: int)
    ensures
        forall|id: int|
            m.live.contains(id) && !m.tags.dom().contains(id) && !m.pending.contains(id)
                ==> #[trigger] model_reap(m, t).live.contains(id),
{
}

/// Nesting is strictly LIFO. With two distinct scopes — `inner` the one being
/// closed, `outer` any other — reaping `inner` spares every live entity of
/// `outer` whose deletion was not requested independently, and reaping
/// `outer` afterwards destroys every one of `outer`'s entities.
pub proof fn lemma_reap_is_lifo(m: WorldModel, inner: int, outer: int)
    requires
        inner != outer,
    ensures
        forall|id: int|
            m.live.contains(id) && !m.pending.contains(id) && m.tags.dom().contains(id)
                && m.tags[id] == outer ==> #[trigger] model_reap(m, inner).live.contains(id),
        forall|id: int|
            m.tags.dom().contains(id) && m.tags[id] == outer ==> !(#[trigger] model_reap(
                model_reap(m, inner),
                outer,
            ).live.contains(id)),
{
    assert forall|id: int|
        m.tags.dom().contains(id) && m.tags[id] == outer implies !(#[trigger] model_reap(
        model_reap(m, inner),
        outer,
    ).live.contains(id)) by {
        let m1 = model_reap(m, inner);
        if m1.live.contains(id) {
            assert(tagged_live(m1, outer).contains(id));
        }
    }
}

/// Deletion is idempotent: requesting deletion of an entity that is already
/// dead is absorbed — the next maintenance leaves exactly the same entities
/// alive as it would have without the request.
pub proof fn lemma_delete_dead_is_absorbed(m: WorldModel, id: int)
    requires
        !m.live.contains(id),
    ensures
        model_maintain(model_delete(m, id)) =~= model_maintain(m),
{
    assert(model_maintain(model_delete(m, id)).live =~= model_maintain(m).live);
}

/// Reaping a scope a second time changes nothing: the first reap already
/// destroyed every entity of the scope.
pub proof fn lemma_reap_idempotent(m: WorldModel, t: int)
    ensures
        model_reap(model_reap(m, t), t) =~= model_reap(m, t),
{
    assert(model_reap(model_reap(m, t), t).live =~= model_reap(m, t).live);
}

} // verus!
