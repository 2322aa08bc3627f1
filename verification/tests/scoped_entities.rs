use scoped_entities::scope::ManagedResource;
use scoped_entities::world::World;

#[test]
fn stack_counts_depth_up_and_down() {
    let mut r = ManagedResource::new();
    r.push_state();
    assert_eq!(r.active_scope(), 1);
    r.push_state();
    assert_eq!(r.active_scope(), 2);
    assert_eq!(r.pop_state(), 2);
    assert_eq!(r.active_scope(), 1);
    assert_eq!(r.pop_state(), 1);
}

#[test]
fn stack_default_is_the_ground_state() {
    let mut r = ManagedResource::default();
    r.push_state();
    assert_eq!(r.active_scope(), 1);
}

#[test]
fn nested_scopes_sweep_in_lifo_order() {
    let mut w = World::new();
    w.push_state();
    let e1 = w.create_managed();
    let e2 = w.create_managed();
    w.push_state();
    let e3 = w.create_managed();
    w.pop_state();
    assert!(!w.is_alive(e3));
    assert!(w.is_alive(e1));
    assert!(w.is_alive(e2));
    w.pop_state();
    assert!(!w.is_alive(e1));
    assert!(!w.is_alive(e2));
}

#[test]
fn live_count_returns_to_baseline() {
    let mut w = World::new();
    let keeper = w.create_entity();
    w.push_state();
    let baseline = w.live_count();
    assert_eq!(baseline, 1);
    w.push_state();
    for _ in 0..100 {
        w.create_managed();
    }
    assert_eq!(w.live_count(), baseline + 100);
    w.pop_state();
    assert_eq!(w.live_count(), baseline);
    assert!(w.is_alive(keeper));
    w.pop_state();
    assert_eq!(w.live_count(), baseline);
}

#[test]
fn unmanaged_entities_survive_every_pop() {
    let mut w = World::new();
    let before_any_push = w.create_entity();
    w.push_state();
    let during = w.create_entity();
    let managed = w.create_managed();
    w.pop_state();
    assert!(w.is_alive(before_any_push));
    assert!(w.is_alive(during));
    assert!(!w.is_alive(managed));
}

#[test]
fn reaping_an_already_deleted_entity_is_absorbed() {
    let mut w = World::new();
    w.push_state();
    let e = w.create_managed();
    let f = w.create_managed();
    w.delete_entity(e);
    w.maintain();
    assert!(!w.is_alive(e));
    w.pop_state();
    assert!(!w.is_alive(e));
    assert!(!w.is_alive(f));
}

#[test]
fn deleting_twice_is_a_no_op() {
    let mut w = World::new();
    let a = w.create_entity();
    let b = w.create_entity();
    w.delete_entity(a);
    w.maintain();
    w.delete_entity(a);
    w.maintain();
    assert!(!w.is_alive(a));
    assert!(w.is_alive(b));
    assert_eq!(w.live_count(), 1);
}

#[test]
fn deletion_is_deferred_until_maintenance() {
    let mut w = World::new();
    let e = w.create_entity();
    w.delete_entity(e);
    assert!(w.is_alive(e));
    w.maintain();
    assert!(!w.is_alive(e));
}

#[test]
fn builder_stamps_scope_and_attaches_components() {
    let mut w = World::new();
    w.push_state();
    let b = w.create_managed_entity();
    let b = b.with(&mut w, 7);
    let b = b.with(&mut w, 9);
    let e = b.build();
    assert!(w.is_alive(e));
    assert_eq!(w.tag_of(e), Some(1));
    assert_eq!(w.components_of(e), vec![7, 9]);
    w.pop_state();
    assert!(!w.is_alive(e));
}

#[test]
fn tags_record_the_creating_scope() {
    let mut w = World::new();
    w.push_state();
    let e1 = w.create_managed();
    w.push_state();
    let e2 = w.create_managed();
    let d = w.create_entity();
    assert_eq!(w.tag_of(e1), Some(1));
    assert_eq!(w.tag_of(e2), Some(2));
    assert_eq!(w.tag_of(d), None);
    w.pop_state();
    assert_eq!(w.tag_of(e1), Some(1));
    w.pop_state();
}

#[test]
fn join_yields_exactly_the_scopes_entities_in_order() {
    let mut w = World::new();
    w.push_state();
    let e1 = w.create_managed();
    let d = w.create_entity();
    let e2 = w.create_managed();
    let v = w.live_tagged_with(1);
    assert_eq!(v, vec![e1, e2]);
    assert!(w.live_tagged_with(2).is_empty());
    w.pop_state();
    assert!(w.live_tagged_with(1).is_empty());
    assert!(w.is_alive(d));
}

#[test]
fn reap_destroys_exactly_the_given_tag() {
    let mut w = World::new();
    let a = w.create_entity();
    let b = w.create_entity();
    let c = w.create_entity();
    w.tag(a, 5);
    w.tag(c, 6);
    w.reap(5);
    assert!(!w.is_alive(a));
    assert!(w.is_alive(b));
    assert!(w.is_alive(c));
    w.reap(6);
    assert!(!w.is_alive(c));
    assert!(w.is_alive(b));
}

#[test]
fn handles_are_comparable() {
    let mut w = World::new();
    let a = w.create_entity();
    let b = w.create_entity();
    assert_eq!(a, a);
    assert_ne!(a, b);
}

#[test]
fn a_reused_depth_governs_only_its_own_entities() {
    let mut w = World::new();
    w.push_state();
    let first = w.create_managed();
    w.pop_state();
    assert!(!w.is_alive(first));
    w.push_state();
    let second = w.create_managed();
    assert_eq!(w.tag_of(second), Some(1));
    assert!(!w.is_alive(first));
    w.pop_state();
    assert!(!w.is_alive(second));
}

#[test]
fn a_fresh_world_is_empty() {
    let mut w = World::new();
    assert_eq!(w.live_count(), 0);
    assert!(w.live_tagged_with(0).is_empty());
    assert!(w.live_tagged_with(1).is_empty());
    w.maintain();
    assert_eq!(w.live_count(), 0);
}
