//! The arithmetic of memory accounting: a byte counter, an optional ceiling,
//! and what each kind of request does to the counter.
//!
//! Everything here is stated over plain numbers, so that the laws of the
//! bounded allocator can be read and proved apart from any memory.

use vstd::prelude::*;

verus! {

/// One request to an allocator, reduced to the sizes that accounting reads.
#[derive(Debug, Clone, Copy, PartialEq, Eq, Structural)]
pub enum MemoryOp {
    /// A new block of `size` bytes.
    Alloc { size: usize },
    /// A block of `old_size` bytes becomes one of `new_size` bytes.
    Realloc { old_size: usize, new_size: usize },
    /// A block of `size` bytes is given back.
    Free { size: usize },
}

/// By how many bytes a request changes the sum of live bytes.
pub open spec fn delta(op: MemoryOp) -> int {
    match op {
        MemoryOp::Alloc { size } => size as int,
        MemoryOp::Realloc { old_size, new_size } => new_size - old_size,
        MemoryOp::Free { size } => -(size as int),
    }
}

/// `value` held to the range of the counter: zero for anything below zero,
/// the largest counter value for anything above it.
pub open spec fn saturate(value: int) -> usize {
    if value < 0 {
        0
    } else if value > usize::MAX {
        usize::MAX
    } else {
        value as usize
    }
}

/// Whether a request is granted at counter `used` under `limit`. Giving
/// memory back is always granted. Anything else is granted unless it would
/// push the counter over the ceiling; without a ceiling nothing is refused.
pub open spec fn admits(limit: Option<usize>, used: usize, op: MemoryOp) -> bool {
    op is Free || match limit {
        Some(ceiling) => used + delta(op) <= ceiling,
        None => true,
    }
}

/// The counter after a granted request.
pub open spec fn counted(used: usize, op: MemoryOp) -> usize {
    saturate(used + delta(op))
}

/// The counter after a request: moved if the request is granted, untouched
/// if it is refused.
pub open spec fn step(limit: Option<usize>, used: usize, op: MemoryOp) -> usize {
    if admits(limit, used, op) {
        counted(used, op)
    } else {
        used
    }
}

/// The counter after a sequence of requests, starting from `used`.
pub open spec fn replay(limit: Option<usize>, used: usize, ops: Seq<MemoryOp>) -> usize
    decreases ops.len(),
{
    if ops.len() == 0 {
        used
    } else {
        step(limit, replay(limit, used, ops.drop_last()), ops.last())
    }
}

/// The sum of live bytes after a sequence of requests that are all granted,
/// starting from nothing.
pub open spec fn live_bytes(ops: Seq<MemoryOp>) -> int
    decreases ops.len(),
{
    if ops.len() == 0 {
        0
    } else {
        live_bytes(ops.drop_last()) + delta(ops.last())
    }
}

/// The running sum of live bytes stays between zero and `ceiling` over the
/// first `count` requests.
pub open spec fn stays_within(ceiling: usize, ops: Seq<MemoryOp>, count: int) -> bool {
    forall|k: int| 0 <= k <= count ==> 0 <= #[trigger] live_bytes(ops.take(k)) <= ceiling
}

/// Computes `saturate(used + delta(op))`.
pub fn apply(used: usize, op: MemoryOp) -> (after: usize)
    ensures
        after == counted(used, op),
{
    match op {
        MemoryOp::Alloc { size } => used.saturating_add(size),
        MemoryOp::Realloc { old_size, new_size } => {
            if new_size >= old_size {
                used.saturating_add(new_size - old_size)
            } else {
                used.saturating_sub(old_size - new_size)
            }
        },
        MemoryOp::Free { size } => used.saturating_sub(size),
    }
}

/// Decides whether a request is granted.
pub fn is_admitted(limit: Option<usize>, used: usize, op: MemoryOp) -> (granted: bool)
    ensures
        granted == admits(limit, used, op),
{
    match limit {
        None => true,
        Some(ceiling) => match op {
            MemoryOp::Free { .. } => true,
            MemoryOp::Alloc { size } => used <= ceiling && size <= ceiling - used,
            MemoryOp::Realloc { old_size, new_size } => {
                if new_size <= old_size {
                    used <= ceiling || old_size - new_size >= used - ceiling
                } else {
                    used <= ceiling && new_size - old_size <= ceiling - used
                }
            },
        },
    }
}

/// While the running sum of live bytes stays between zero and the ceiling,
/// the counter is that sum.
pub proof fn lemma_counter_is_live_bytes(ceiling: usize, ops: Seq<MemoryOp>, count: int)
    requires
        0 <= count <= ops.len(),
        stays_within(ceiling, ops, count),
    ensures
        replay(Some(ceiling), 0, ops.take(count)) == live_bytes(ops.take(count)),
        count > 0 ==> admits(
            Some(ceiling),
            replay(Some(ceiling), 0, ops.take(count - 1)),
            ops[count - 1],
        ),
    decreases count,
{
    let limit = Some(ceiling);
    if count > 0 {
        let prefix = ops.take(count);
        assert(prefix.drop_last() =~= ops.take(count - 1));
        assert(prefix.last() == ops[count - 1]);
        assert(live_bytes(ops.take(count - 1)) >= 0);
        assert(live_bytes(prefix) <= ceiling);
        lemma_counter_is_live_bytes(ceiling, ops, count - 1);
    }
}

/// A sequence of requests whose running sum of live bytes never leaves the
/// range from zero to the ceiling is granted request by request, and the
/// counter follows the sum.
pub proof fn lemma_within_ceiling_always_granted(ceiling: usize, ops: Seq<MemoryOp>)
    requires
        stays_within(ceiling, ops, ops.len() as int),
    ensures
        forall|k: int|
            0 <= k < ops.len() ==> admits(
                Some(ceiling),
                #[trigger] replay(Some(ceiling), 0, ops.take(k)),
                ops[k],
            ),
        replay(Some(ceiling), 0, ops) == live_bytes(ops),
{
    assert forall|k: int| 0 <= k < ops.len() implies admits(
        Some(ceiling),
        #[trigger] replay(Some(ceiling), 0, ops.take(k)),
        ops[k],
    ) by {
        lemma_counter_is_live_bytes(ceiling, ops, k + 1);
    }
    lemma_counter_is_live_bytes(ceiling, ops, ops.len() as int);
    assert(ops.take(ops.len() as int) =~= ops);
}

/// Whether a request is granted when `live` bytes are live: the decision of
/// `admits`, taken on the true sum instead of the counter.
pub open spec fn grants(limit: Option<usize>, live: int, op: MemoryOp) -> bool {
    op is Free || match limit {
        Some(ceiling) => live + delta(op) <= ceiling,
        None => true,
    }
}

/// The sum of live bytes after a sequence of requests, starting from
/// nothing: the changes of those requests that were granted.
pub open spec fn granted_bytes(limit: Option<usize>, ops: Seq<MemoryOp>) -> int
    decreases ops.len(),
{
    if ops.len() == 0 {
        0
    } else {
        let before = granted_bytes(limit, ops.drop_last());
        if grants(limit, before, ops.last()) {
            before + delta(ops.last())
        } else {
            before
        }
    }
}

/// Over the first `count` requests, no more is given back than is live.
pub open spec fn gives_back_only_live_bytes(
    limit: Option<usize>,
    ops: Seq<MemoryOp>,
    count: int,
) -> bool {
    forall|k: int| 0 <= k <= count ==> #[trigger] granted_bytes(limit, ops.take(k)) >= 0
}

/// As long as the virtual machine gives back no more than is live, the
/// counter of an allocator with a ceiling is the sum of live bytes, and that
/// sum never exceeds the ceiling.
pub proof fn lemma_counter_tracks_live_bytes(ceiling: usize, ops: Seq<MemoryOp>, count: int)
    requires
        0 <= count <= ops.len(),
        gives_back_only_live_bytes(Some(ceiling), ops, count),
    ensures
        replay(Some(ceiling), 0, ops.take(count)) == granted_bytes(
            Some(ceiling),
            ops.take(count),
        ),
        0 <= granted_bytes(Some(ceiling), ops.take(count)) <= ceiling,
    decreases count,
{
    if count > 0 {
        let prefix = ops.take(count);
        assert(prefix.drop_last() =~= ops.take(count - 1));
        assert(granted_bytes(Some(ceiling), ops.take(count)) >= 0);
        lemma_counter_tracks_live_bytes(ceiling, ops, count - 1);
    }
}

/// As long as the virtual machine gives back no more than is live, a
/// request is refused exactly where it would push the sum of live bytes
/// over the ceiling: at that request, whatever was refused or granted
/// before, and at no other.
pub proof fn lemma_refused_exactly_over_ceiling(ceiling: usize, ops: Seq<MemoryOp>, index: int)
    requires
        0 <= index < ops.len(),
        gives_back_only_live_bytes(Some(ceiling), ops, index),
    ensures
        admits(Some(ceiling), replay(Some(ceiling), 0, ops.take(index)), ops[index]) <==> (
        ops[index] is Free || granted_bytes(Some(ceiling), ops.take(index)) + delta(ops[index])
            <= ceiling),
{
    lemma_counter_tracks_live_bytes(ceiling, ops, index);
}

/// A resize of a counted block that would push the counter over the ceiling
/// is refused, and the counter stays as it is.
pub proof fn lemma_resize_over_ceiling_is_refused(
    ceiling: usize,
    used: usize,
    old_size: usize,
    new_size: usize,
)
    requires
        old_size <= used,
        used - old_size + new_size > ceiling,
    ensures
        !admits(Some(ceiling), used, MemoryOp::Realloc { old_size, new_size }),
        step(Some(ceiling), used, MemoryOp::Realloc { old_size, new_size }) == used,
{
}

/// A resize of a counted block that stays within the ceiling is granted, and
/// the counter gives up the old size and takes on the new one.
pub proof fn lemma_resize_within_ceiling_is_counted(
    ceiling: usize,
    used: usize,
    old_size: usize,
    new_size: usize,
)
    requires
        old_size <= used,
        used - old_size + new_size <= ceiling,
    ensures
        admits(Some(ceiling), used, MemoryOp::Realloc { old_size, new_size }),
        step(Some(ceiling), used, MemoryOp::Realloc { old_size, new_size }) == used - old_size
            + new_size,
{
}

/// An allocation that is granted and does not saturate the counter,
/// followed by giving back as many bytes, leaves the counter where it was.
pub proof fn lemma_alloc_free_restores(limit: Option<usize>, used: usize, size: usize)
    requires
        admits(limit, used, MemoryOp::Alloc { size }),
        used + size <= usize::MAX,
    ensures
        step(limit, step(limit, used, MemoryOp::Alloc { size }), MemoryOp::Free { size }) == used,
{
}

/// The requests that allocate each of `sizes` and give it back at once.
pub open spec fn alloc_free_pairs(sizes: Seq<usize>) -> Seq<MemoryOp>
    decreases sizes.len(),
{
    if sizes.len() == 0 {
        Seq::empty()
    } else {
        alloc_free_pairs(sizes.drop_last()).push(MemoryOp::Alloc { size: sizes.last() }).push(
            MemoryOp::Free { size: sizes.last() },
        )
    }
}

/// Any number of allocations, each granted, none saturating the counter, and
/// each followed at once by giving back as many bytes, leaves the counter
/// where it was.
pub proof fn lemma_alloc_free_pairs_restore(limit: Option<usize>, used: usize, sizes: Seq<usize>)
    requires
        forall|i: int|
            0 <= i < sizes.len() ==> admits(limit, used, MemoryOp::Alloc { size: #[trigger] sizes[i] })
                && used + sizes[i] <= usize::MAX,
    ensures
        replay(limit, used, alloc_free_pairs(sizes)) == used,
    decreases sizes.len(),
{
    if sizes.len() > 0 {
        let front = sizes.drop_last();
        let size = sizes.last();
        assert forall|i: int| 0 <= i < front.len() implies admits(
            limit,
            used,
            MemoryOp::Alloc { size: #[trigger] front[i] },
        ) && used + front[i] <= usize::MAX by {
            assert(front[i] == sizes[i]);
        }
        lemma_alloc_free_pairs_restore(limit, used, front);
        let ops = alloc_free_pairs(sizes);
        let middle = alloc_free_pairs(front).push(MemoryOp::Alloc { size });
        assert(ops.drop_last() =~= middle);
        assert(middle.drop_last() =~= alloc_free_pairs(front));
        assert(admits(limit, used, MemoryOp::Alloc { size: sizes[sizes.len() - 1] }));
        lemma_alloc_free_restores(limit, used, size);
        assert(replay(limit, used, middle) == step(limit, used, middle.last()));
        assert(replay(limit, used, ops) == step(limit, replay(limit, used, middle), ops.last()));
    }
}

/// Giving memory back never takes the counter below zero: a size larger than
/// the counter leaves it at zero.
pub proof fn lemma_free_stops_at_zero(limit: Option<usize>, used: usize, size: usize)
    ensures
        step(limit, used, MemoryOp::Free { size }) == if size >= used {
            0
        } else {
            used - size
        },
{
}

} // verus!
