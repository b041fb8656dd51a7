//! The bridge between the one allocation callback of the virtual machine
//! and an allocator of the host.
//!
//! The virtual machine has a single callback for all its memory traffic. It
//! passes an address and two sizes, and which of them are zero says what it
//! wants.

use crate::allocator::{non_null, LuauAllocator, NULL};
use vstd::prelude::*;

verus! {

/// What the virtual machine asks for in one call of its allocation
/// callback.
#[derive(Debug, Clone, Copy, PartialEq, Eq, Structural)]
pub enum AllocatorCall {
    /// A new block of `size` bytes.
    Alloc { size: usize },
    /// The block of `old_size` bytes at `ptr` is to become `new_size` bytes.
    Realloc { ptr: usize, old_size: usize, new_size: usize },
    /// The block of `size` bytes at `ptr` is given back.
    Free { ptr: usize, size: usize },
}

/// The request that the three arguments of the callback spell:
/// no block and a new size ask for an allocation, a block and a new size
/// ask for a resize, a block and no new size give the block back. Every
/// other combination breaks the agreement with the virtual machine.
pub open spec fn call_shape(ptr: usize, old_size: usize, new_size: usize) -> Option<
    AllocatorCall,
> {
    if ptr == NULL && old_size == 0 && new_size > 0 {
        Some(AllocatorCall::Alloc { size: new_size })
    } else if ptr != NULL && old_size > 0 && new_size > 0 {
        Some(AllocatorCall::Realloc { ptr, old_size, new_size })
    } else if ptr != NULL && old_size > 0 && new_size == 0 {
        Some(AllocatorCall::Free { ptr, size: old_size })
    } else {
        None
    }
}

/// Reads the three arguments of the callback.
pub fn decode_call(ptr: usize, old_size: usize, new_size: usize) -> (call: Option<AllocatorCall>)
    ensures
        call == call_shape(ptr, old_size, new_size),
{
    if ptr == NULL {
        if old_size == 0 && new_size > 0 {
            Some(AllocatorCall::Alloc { size: new_size })
        } else {
            None
        }
    } else if old_size == 0 {
        None
    } else if new_size > 0 {
        Some(AllocatorCall::Realloc { ptr, old_size, new_size })
    } else {
        Some(AllocatorCall::Free { ptr, size: old_size })
    }
}

/// The address that the callback returns for what an allocator answered:
/// the address it granted, and the null pointer where it had no memory.
pub open spec fn reply_of(answer: Option<usize>) -> usize {
    match answer {
        Some(address) => address,
        None => NULL,
    }
}

/// The address that the callback returns for what an allocator answered.
pub fn reply(answer: Option<usize>) -> (address: usize)
    ensures
        address == reply_of(answer),
{
    match answer {
        Some(address) => address,
        None => NULL,
    }
}

/// One call of the allocation callback, forwarded to `allocator`.
///
/// The arguments must spell a request. The allocator is called once, with
/// the method and the arguments that the request names. What comes back is
/// what the callback returns to the virtual machine: the address that the
/// allocator granted, the null pointer if it had no memory, and the null
/// pointer after a block was given back.
pub fn raw_alloc<A: LuauAllocator>(
    allocator: &mut A,
    ptr: usize,
    old_size: usize,
    new_size: usize,
) -> (address: usize)
    requires
        call_shape(ptr, old_size, new_size) is Some,
    ensures
        match call_shape(ptr, old_size, new_size) {
            Some(AllocatorCall::Alloc { size }) => old(allocator).allocates(
                size,
                final(allocator),
                non_null(address),
            ),
            Some(AllocatorCall::Realloc { ptr, old_size, new_size }) => old(allocator).reallocates(
                ptr,
                old_size,
                new_size,
                final(allocator),
                non_null(address),
            ),
            Some(AllocatorCall::Free { ptr, size }) => old(allocator).frees(
                ptr,
                size,
                final(allocator),
            ) && address == NULL,
            None => false,
        },
{
    match decode_call(ptr, old_size, new_size) {
        Some(AllocatorCall::Free { ptr, size }) => {
            allocator.free(ptr, size);
            NULL
        },
        Some(AllocatorCall::Realloc { ptr, old_size, new_size }) => {
            let answer = allocator.realloc(ptr, old_size, new_size);
            reply(answer)
        },
        Some(AllocatorCall::Alloc { size }) => {
            let answer = allocator.allocate(size);
            reply(answer)
        },
        None => NULL,
    }
}

} // verus!
