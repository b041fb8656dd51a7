//! The life of a virtual machine handle and of the allocator bound to it.
//!
//! The host owns both as one unit. The virtual machine may still call the
//! allocator while it is being closed, so the handle always goes first and
//! the allocator second. This module decides what is to be done and in what
//! order; the host carries it out.

use vstd::prelude::*;

verus! {

/// Where a handle stands in its life. A value of this type is consumed by
/// every transition, so no state can be left twice.
#[derive(Debug, PartialEq, Eq)]
pub enum Lifecycle {
    /// The allocator is boxed, the foreign constructor has not answered.
    Uninitialized,
    /// The virtual machine at address `handle`, which is not the null
    /// pointer, is in use.
    Active { handle: usize },
    /// Handle and allocator are gone. Nothing follows.
    Destroyed,
}

/// What happens to a handle.
#[derive(Debug, Clone, Copy, PartialEq, Eq, Structural)]
pub enum LifecycleEvent {
    /// The foreign constructor returned `handle`, zero for the null pointer.
    Constructed { handle: usize },
    /// The host lets go of the virtual machine.
    Dropped,
}

/// What the host has to do.
#[derive(Debug, Clone, Copy, PartialEq, Eq, Structural)]
pub enum LifecycleAction {
    /// Call the foreign teardown function on the virtual machine at
    /// `handle`.
    CloseState { handle: usize },
    /// Destroy the boxed allocator.
    ReleaseAllocator,
}

/// The state that follows and the actions to carry out, in order, or
/// nothing where no transition is defined.
///
/// A constructor that returns the null pointer never reaches the active
/// state, but the allocator that was boxed for it is still released. The
/// one way out of the active state closes the virtual machine first and
/// releases the allocator second. A handle is never the null pointer, so
/// nothing is defined on an active state that claims to hold it.
pub open spec fn next(state: Lifecycle, event: LifecycleEvent) -> Option<
    (Lifecycle, Seq<LifecycleAction>),
> {
    match (state, event) {
        (Lifecycle::Uninitialized, LifecycleEvent::Constructed { handle }) => if handle == 0 {
            Some((Lifecycle::Destroyed, seq![LifecycleAction::ReleaseAllocator]))
        } else {
            Some((Lifecycle::Active { handle }, Seq::empty()))
        },
        (Lifecycle::Active { handle }, LifecycleEvent::Dropped) => if handle == 0 {
            None
        } else {
            Some(
                (
                    Lifecycle::Destroyed,
                    seq![LifecycleAction::CloseState { handle }, LifecycleAction::ReleaseAllocator],
                ),
            )
        },
        _ => None,
    }
}

/// Takes a handle through one transition.
pub fn step(state: Lifecycle, event: LifecycleEvent) -> (outcome: Option<
    (Lifecycle, Vec<LifecycleAction>),
>)
    ensures
        outcome is Some <==> next(state, event) is Some,
        outcome matches Some((after, actions)) ==> next(state, event) == Some((after, actions@)),
{
    match (state, event) {
        (Lifecycle::Uninitialized, LifecycleEvent::Constructed { handle }) => {
            let mut actions: Vec<LifecycleAction> = Vec::new();
            if handle == 0 {
                actions.push(LifecycleAction::ReleaseAllocator);
                assert(actions@ =~= seq![LifecycleAction::ReleaseAllocator]);
                Some((Lifecycle::Destroyed, actions))
            } else {
                assert(actions@ =~= Seq::empty());
                Some((Lifecycle::Active { handle }, actions))
            }
        },
        (Lifecycle::Active { handle }, LifecycleEvent::Dropped) => {
            if handle == 0 {
                return None;
            }
            let mut actions: Vec<LifecycleAction> = Vec::new();
            actions.push(LifecycleAction::CloseState { handle });
            actions.push(LifecycleAction::ReleaseAllocator);
            assert(actions@ =~= seq![
                LifecycleAction::CloseState { handle },
                LifecycleAction::ReleaseAllocator,
            ]);
            Some((Lifecycle::Destroyed, actions))
        },
        _ => None,
    }
}

/// How often the allocator is released in a list of actions.
pub open spec fn releases(actions: Seq<LifecycleAction>) -> nat {
    actions.filter(|action: LifecycleAction| action is ReleaseAllocator).len()
}

/// In every transition, the virtual machine is closed before the allocator
/// is released.
pub proof fn lemma_close_comes_first(state: Lifecycle, event: LifecycleEvent)
    ensures
        next(state, event) matches Some((_, actions)) ==> forall|i: int, j: int|
            0 <= i < actions.len() && 0 <= j < actions.len() && actions[i] is CloseState
                && actions[j] is ReleaseAllocator ==> i < j,
{
}

/// The allocator is released in exactly those transitions that end the
/// life of the handle, and once in each.
pub proof fn lemma_allocator_released_at_the_end(state: Lifecycle, event: LifecycleEvent)
    ensures
        next(state, event) matches Some((after, actions)) ==> releases(actions) == if after
            is Destroyed {
            1nat
        } else {
            0nat
        },
{
    let release = |action: LifecycleAction| action is ReleaseAllocator;
    match next(state, event) {
        Some((after, actions)) => {
            if actions.len() == 0 {
                assert(actions.filter(release) =~= Seq::empty()) by {
                    reveal(Seq::filter);
                }
            } else if actions.len() == 1 {
                assert(actions =~= Seq::empty().push(LifecycleAction::ReleaseAllocator));
                assert(actions.drop_last() =~= Seq::empty());
                reveal_with_fuel(Seq::filter, 3);
            } else {
                let handle = state->handle;
                let first = seq![LifecycleAction::CloseState { handle }];
                assert(actions.drop_last() =~= first);
                assert(first.drop_last() =~= Seq::empty());
                reveal_with_fuel(Seq::filter, 4);
            }
        },
        None => {},
    }
}

/// Nothing is defined on a handle that has been destroyed.
pub proof fn lemma_destroyed_is_final(event: LifecycleEvent)
    ensures
        next(Lifecycle::Destroyed, event) is None,
{
}

} // verus!
