use luau::state::{step, Lifecycle, LifecycleAction, LifecycleEvent};

#[test]
fn constructor_success_makes_handle_active() {
    let outcome = step(Lifecycle::Uninitialized, LifecycleEvent::Constructed { handle: 0x5000 });
    assert_eq!(outcome, Some((Lifecycle::Active { handle: 0x5000 }, vec![])));
}

#[test]
fn constructor_failure_still_releases_allocator() {
    let outcome = step(Lifecycle::Uninitialized, LifecycleEvent::Constructed { handle: 0 });
    assert_eq!(outcome, Some((Lifecycle::Destroyed, vec![LifecycleAction::ReleaseAllocator])));
}

#[test]
fn teardown_closes_state_before_releasing_allocator() {
    let outcome = step(Lifecycle::Active { handle: 0x5000 }, LifecycleEvent::Dropped);
    assert_eq!(
        outcome,
        Some((
            Lifecycle::Destroyed,
            vec![
                LifecycleAction::CloseState { handle: 0x5000 },
                LifecycleAction::ReleaseAllocator
            ]
        ))
    );
}

#[test]
fn nothing_is_defined_on_a_destroyed_handle() {
    assert_eq!(step(Lifecycle::Destroyed, LifecycleEvent::Dropped), None);
    assert_eq!(step(Lifecycle::Destroyed, LifecycleEvent::Constructed { handle: 1 }), None);
}

#[test]
fn other_transitions_are_not_defined() {
    assert_eq!(step(Lifecycle::Uninitialized, LifecycleEvent::Dropped), None);
    assert_eq!(
        step(Lifecycle::Active { handle: 1 }, LifecycleEvent::Constructed { handle: 2 }),
        None
    );
}

#[test]
fn whole_life_releases_allocator_once() {
    let (active, first) =
        step(Lifecycle::Uninitialized, LifecycleEvent::Constructed { handle: 7 }).unwrap();
    let (gone, second) = step(active, LifecycleEvent::Dropped).unwrap();
    assert_eq!(gone, Lifecycle::Destroyed);
    let releases = first
        .iter()
        .chain(second.iter())
        .filter(|action| **action == LifecycleAction::ReleaseAllocator)
        .count();
    assert_eq!(releases, 1);
}

#[test]
fn active_state_never_holds_the_null_handle() {
    assert_eq!(step(Lifecycle::Active { handle: 0 }, LifecycleEvent::Dropped), None);
}
