//! The channel through which the member lookups of a compile call reach the
//! library descriptors of that call.
//!
//! The foreign compiler calls back with nothing but two names, so the
//! descriptors have to wait where the callbacks can find them. A compile
//! call may start while another one on the same thread is still inside a
//! callback. The channel therefore is a stack: each call pushes its
//! descriptors on entry and pops them on exit, and the lookups read the top.

use crate::compiler::library::{
    constant_answer, is_constant_answer, lookup_member_constant, lookup_member_type,
    member_constant_of, member_type_of, ConstantWrite, LibraryWithKnownMembersC, LuauBytecodeType,
};
use vstd::prelude::*;

verus! {

/// The descriptor lists of the compile calls that are under way on one
/// thread, the innermost call last.
#[derive(Debug)]
pub struct LibraryChannel {
    pub calls: Vec<Vec<LibraryWithKnownMembersC>>,
}

/// The stack after a call with `libraries` has started.
pub open spec fn entered(
    stack: Seq<Seq<LibraryWithKnownMembersC>>,
    libraries: Seq<LibraryWithKnownMembersC>,
) -> Seq<Seq<LibraryWithKnownMembersC>> {
    stack.push(libraries)
}

/// The stack after the innermost call has ended.
pub open spec fn left(stack: Seq<Seq<LibraryWithKnownMembersC>>) -> Seq<
    Seq<LibraryWithKnownMembersC>,
> {
    if stack.len() == 0 {
        stack
    } else {
        stack.drop_last()
    }
}

/// The descriptors that lookups read: those of the innermost call, and none
/// while no call is under way.
pub open spec fn active(stack: Seq<Seq<LibraryWithKnownMembersC>>) -> Seq<
    LibraryWithKnownMembersC,
> {
    if stack.len() == 0 {
        Seq::empty()
    } else {
        stack.last()
    }
}

impl View for LibraryChannel {
    type V = Seq<Seq<LibraryWithKnownMembersC>>;

    open spec fn view(&self) -> Seq<Seq<LibraryWithKnownMembersC>> {
        Seq::new(self.calls@.len(), |i: int| self.calls@[i]@)
    }
}

impl LibraryChannel {
    /// A channel with no call under way.
    pub fn new() -> (channel: Self)
        ensures
            channel@ == Seq::<Seq<LibraryWithKnownMembersC>>::empty(),
    {
        let channel = LibraryChannel { calls: Vec::new() };
        assert(channel@ =~= Seq::<Seq<LibraryWithKnownMembersC>>::empty());
        channel
    }

    /// The number of calls under way.
    pub fn depth(&self) -> (depth: usize)
        ensures
            depth == self@.len(),
    {
        self.calls.len()
    }

    /// Starts a call: its descriptors become the ones that lookups read.
    pub fn enter(&mut self, libraries: Vec<LibraryWithKnownMembersC>)
        ensures
            final(self)@ == entered(old(self)@, libraries@),
    {
        self.calls.push(libraries);
        assert(self@ =~= entered(old(self)@, libraries@));
    }

    /// Ends the innermost call and hands its descriptors back. The lookups
    /// read the descriptors of the call around it again. With no call under
    /// way nothing changes.
    pub fn leave(&mut self) -> (libraries: Option<Vec<LibraryWithKnownMembersC>>)
        ensures
            final(self)@ == left(old(self)@),
            old(self)@.len() == 0 ==> libraries is None,
            old(self)@.len() > 0 ==> (libraries matches Some(list) && list@ == active(old(self)@)),
    {
        let libraries = self.calls.pop();
        assert(self@ =~= left(old(self)@));
        libraries
    }

    /// The descriptors that lookups read at the moment.
    pub fn current(&self) -> (libraries: &[LibraryWithKnownMembersC])
        ensures
            libraries@ == active(self@),
    {
        let depth = self.calls.len();
        if depth == 0 {
            let nothing: &[LibraryWithKnownMembersC] = &[];
            assert(nothing@ =~= active(self@));
            nothing
        } else {
            self.calls[depth - 1].as_slice()
        }
    }

    /// The bytecode type of `member` of `library`, as the innermost call
    /// knows it.
    pub fn member_type(&self, library: &[u8], member: &[u8]) -> (found: Option<LuauBytecodeType>)
        ensures
            found == member_type_of(active(self@), library@, member@),
    {
        lookup_member_type(self.current(), library, member)
    }

    /// The write that answers a query for the constant of `member` of
    /// `library`, and whether the innermost call knows that member at all.
    pub fn member_constant(&self, library: &[u8], member: &[u8]) -> (answer: (
        ConstantWrite<'_>,
        bool,
    ))
        ensures
            is_constant_answer(answer.0, member_constant_of(active(self@), library@, member@)),
            answer.1 == member_constant_of(active(self@), library@, member@).is_some(),
    {
        let found = lookup_member_constant(self.current(), library, member);
        (constant_answer(found), found.is_some())
    }
}

/// A call that has ended leaves the channel as it found it, and while it
/// runs the lookups read its own descriptors.
pub proof fn lemma_enter_leave_restores(
    stack: Seq<Seq<LibraryWithKnownMembersC>>,
    libraries: Seq<LibraryWithKnownMembersC>,
)
    ensures
        active(entered(stack, libraries)) == libraries,
        left(entered(stack, libraries)) == stack,
{
    assert(stack.push(libraries).drop_last() =~= stack);
}

/// A call that starts inside another one hides the descriptors of the outer
/// call only until it ends.
pub proof fn lemma_nested_call_is_transparent(
    stack: Seq<Seq<LibraryWithKnownMembersC>>,
    outer: Seq<LibraryWithKnownMembersC>,
    inner: Seq<LibraryWithKnownMembersC>,
)
    ensures
        active(entered(entered(stack, outer), inner)) == inner,
        active(left(entered(entered(stack, outer), inner))) == outer,
        left(left(entered(entered(stack, outer), inner))) == stack,
{
    lemma_enter_leave_restores(entered(stack, outer), inner);
    lemma_enter_leave_restores(stack, outer);
}

} // verus!
