//! Allocators that the virtual machine can draw its memory from.
//!
//! Addresses are plain numbers here, with zero for the null pointer. The
//! host turns them into pointers where it talks to the virtual machine and
//! to the system allocator.

use crate::allocator::accounting::{admits, apply, counted, is_admitted, MemoryOp};
use vstd::layout::valid_layout;
use vstd::prelude::*;

pub mod accounting;
pub mod bridge;

verus! {

/// The address that stands for the null pointer.
pub const NULL: usize = 0;

/// An allocator that the virtual machine can use. Implement it to put
/// limits on the memory of a virtual machine, or to watch it.
///
/// The virtual machine is the only caller. Every size it passes is positive
/// and every address it passes is one that this allocator handed out and
/// has not taken back; the allocator does not have to defend itself against
/// anything else.
pub trait LuauAllocator: Sized {
    /// What this allocator does on a request for `size` bytes: how it
    /// stands afterwards, and what it answers.
    spec fn allocates(&self, size: usize, after: &Self, address: Option<usize>) -> bool;

    /// What this allocator does on a request to resize a block.
    spec fn reallocates(
        &self,
        ptr: usize,
        old_size: usize,
        new_size: usize,
        after: &Self,
        address: Option<usize>,
    ) -> bool;

    /// What this allocator does when a block is given back.
    spec fn frees(&self, ptr: usize, size: usize, after: &Self) -> bool;

    /// Allocates `size` bytes and returns their address, or `None` if there
    /// is no memory to be had.
    fn allocate(&mut self, size: usize) -> (address: Option<usize>)
        requires
            size > 0,
        ensures
            address != Some(NULL),
            old(self).allocates(size, final(self), address),
    ;

    /// Resizes the block of `old_size` bytes at `ptr` to `new_size` bytes
    /// and returns the address of the resized block, or `None` if there is
    /// no memory to be had.
    fn realloc(&mut self, ptr: usize, old_size: usize, new_size: usize) -> (address: Option<usize>)
        requires
            ptr != NULL,
            old_size > 0,
            new_size > 0,
        ensures
            address != Some(NULL),
            old(self).reallocates(ptr, old_size, new_size, final(self), address),
    ;

    /// Gives back the block of `size` bytes at `ptr`.
    fn free(&mut self, ptr: usize, size: usize)
        requires
            ptr != NULL,
            size > 0,
        ensures
            old(self).frees(ptr, size, final(self)),
    ;
}

/// `libc::max_align_t`: a type whose alignment is as wide as that of every
/// scalar type of the platform.
#[verifier::external_type_specification]
#[verifier::external_body]
pub struct ExMaxAlign(libc::max_align_t);

/// Size and alignment of a block of memory.
#[derive(Debug, Clone, Copy, PartialEq, Eq, Structural)]
pub struct MemoryLayout {
    pub size: usize,
    pub align: usize,
}

/// The alignment of every block: that of `libc::max_align_t`. The virtual
/// machine does not say what alignment it expects, so it gets the widest
/// that a scalar can ask for, as `malloc` gives.
pub open spec fn block_alignment() -> usize {
    vstd::layout::align_of::<libc::max_align_t>() as usize
}

/// The layout of a block of `size` bytes, if there is one: the size,
/// rounded up to a multiple of the alignment, has to fit in `isize`.
pub fn get_layout(size: usize) -> (layout: Option<MemoryLayout>)
    ensures
        layout.is_some() <==> valid_layout(size, block_alignment()),
        layout matches Some(l) ==> l.size == size && l.align == block_alignment(),
{
    vstd::layout::layout_for_type_is_valid::<libc::max_align_t>();
    let align: usize = core::mem::align_of::<libc::max_align_t>();
    let largest: usize = isize::MAX as usize;
    if size <= largest - largest % align {
        Some(MemoryLayout { size, align })
    } else {
        None
    }
}

/// The address as the virtual machine wants it answered: the address
/// itself, or nothing for the null pointer.
pub open spec fn non_null(address: usize) -> Option<usize> {
    if address == NULL {
        None
    } else {
        Some(address)
    }
}

/// The state of a bounded allocator as plain values.
pub struct Accounting {
    /// The ceiling in bytes, if there is one.
    pub limit: Option<usize>,
    /// The bytes that count as live.
    pub used: usize,
}

/// The allocator that a virtual machine gets by default. It takes its
/// memory from the system allocator and keeps the sum of live bytes under an
/// optional ceiling.
///
/// This type decides and counts; the host moves the memory. Each request
/// goes in two steps: `plan_*` says whether the request is granted and with
/// what layout the system allocator is to be called, and `finish_*` takes
/// what the system allocator answered and counts what became live.
#[derive(Debug, PartialEq, Clone)]
pub struct LuauAllocatorDefault {
    /// Memory constraint on the virtual machine in bytes. Unconstrained if
    /// `None`.
    pub memory_limit: Option<usize>,
    used_memory: usize,
}

impl View for LuauAllocatorDefault {
    type V = Accounting;

    closed spec fn view(&self) -> Accounting {
        Accounting { limit: self.memory_limit, used: self.used_memory }
    }
}

impl LuauAllocatorDefault {
    /// Creates a new default allocator with the given memory limit in bytes.
    /// Nothing counts as live yet.
    pub fn new(memory_limit: Option<usize>) -> (allocator: Self)
        ensures
            allocator@ == (Accounting { limit: memory_limit, used: 0 }),
    {
        LuauAllocatorDefault { memory_limit, used_memory: 0 }
    }

    /// The memory limit in bytes.
    pub fn limit(&self) -> (limit: Option<usize>)
        ensures
            limit == self@.limit,
    {
        self.memory_limit
    }

    /// The bytes that count as live.
    pub fn used_memory(&self) -> (used: usize)
        ensures
            used == self@.used,
    {
        self.used_memory
    }

    /// Decides on a request for a new block of `size` bytes.
    ///
    /// The request is refused if it would push the counter over the
    /// ceiling, or if no block of that size can exist. Otherwise the answer
    /// is the layout with which the system allocator is to be called.
    pub fn plan_alloc(&self, size: usize) -> (plan: Option<MemoryLayout>)
        requires
            size > 0,
        ensures
            plan.is_some() <==> admits(self@.limit, self@.used, MemoryOp::Alloc { size })
                && valid_layout(size, block_alignment()),
            plan matches Some(l) ==> l.size == size && l.align == block_alignment(),
    {
        if !is_admitted(self.memory_limit, self.used_memory, MemoryOp::Alloc { size }) {
            return None;
        }
        get_layout(size)
    }

    /// Takes note of what the system allocator answered to a planned
    /// allocation of `size` bytes.
    ///
    /// If it answered with an address, the bytes are live from here on: the
    /// counter goes up by `size`, stopping at the largest value it can hold,
    /// and the virtual machine is answered with the address. If it answered
    /// with the null pointer, nothing became live: the counter stays as it
    /// is and the virtual machine is told that there is no memory.
    pub fn finish_alloc(&mut self, size: usize, address: usize) -> (granted: Option<usize>)
        ensures
            final(self)@ == (Accounting {
                used: if address == NULL {
                    old(self)@.used
                } else {
                    counted(old(self)@.used, MemoryOp::Alloc { size })
                },
                ..old(self)@
            }),
            granted == non_null(address),
    {
        if address == NULL {
            None
        } else {
            self.used_memory = apply(self.used_memory, MemoryOp::Alloc { size });
            Some(address)
        }
    }

    /// Decides on a request to resize a block from `old_size` to `new_size`
    /// bytes.
    ///
    /// The request is refused if the change in size would push the counter
    /// over the ceiling, or if no block of the old or of the new size can
    /// exist. Otherwise the answer is the layout of the block as it is now,
    /// with which the system allocator is to be called.
    pub fn plan_realloc(&self, old_size: usize, new_size: usize) -> (plan: Option<MemoryLayout>)
        requires
            old_size > 0,
            new_size > 0,
        ensures
            plan.is_some() <==> admits(
                self@.limit,
                self@.used,
                MemoryOp::Realloc { old_size, new_size },
            ) && valid_layout(old_size, block_alignment()) && valid_layout(
                new_size,
                block_alignment(),
            ),
            plan matches Some(l) ==> l.size == old_size && l.align == block_alignment(),
    {
        if !is_admitted(
            self.memory_limit,
            self.used_memory,
            MemoryOp::Realloc { old_size, new_size },
        ) {
            return None;
        }
        if get_layout(new_size).is_none() {
            return None;
        }
        get_layout(old_size)
    }

    /// Takes note of what the system allocator answered to a planned
    /// resize.
    ///
    /// If it answered with an address, the block has its new size: the
    /// counter moves by the change in size, and stops at zero and at the
    /// largest value it can hold instead of wrapping, since the virtual
    /// machine may name an old size that was never granted. If it answered
    /// with the null pointer, the block is still live with its old size: the
    /// counter stays as it is and the virtual machine is told that there is
    /// no memory.
    pub fn finish_realloc(&mut self, old_size: usize, new_size: usize, address: usize) -> (granted:
        Option<usize>)
        ensures
            final(self)@ == (Accounting {
                used: if address == NULL {
                    old(self)@.used
                } else {
                    counted(old(self)@.used, MemoryOp::Realloc { old_size, new_size })
                },
                ..old(self)@
            }),
            granted == non_null(address),
    {
        if address == NULL {
            None
        } else {
            self.used_memory = apply(self.used_memory, MemoryOp::Realloc { old_size, new_size });
            Some(address)
        }
    }

    /// Takes note that a block of `size` bytes went back to the system
    /// allocator. The counter goes down by `size` and stops at zero.
    pub fn finish_free(&mut self, size: usize)
        ensures
            final(self)@ == (Accounting {
                used: counted(old(self)@.used, MemoryOp::Free { size }),
                ..old(self)@
            }),
    {
        self.used_memory = apply(self.used_memory, MemoryOp::Free { size });
    }
}

impl Default for LuauAllocatorDefault {
    /// The default has no limit.
    fn default() -> (allocator: Self)
        ensures
            allocator@ == (Accounting { limit: None, used: 0 }),
    {
        LuauAllocatorDefault::new(None)
    }
}

} // verus!
