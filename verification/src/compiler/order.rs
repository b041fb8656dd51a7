//! The order of byte strings by which member tables keep their entries:
//! byte by byte, the shorter of two strings first where one begins the
//! other.

use vstd::prelude::*;

verus! {

/// `left` comes before `right`: at the first place where the two differ,
/// `left` has the smaller byte, or `left` ends there and `right` goes on.
pub open spec fn precedes(left: Seq<u8>, right: Seq<u8>) -> bool
    decreases left.len(),
{
    if right.len() == 0 {
        false
    } else if left.len() == 0 {
        true
    } else if left[0] != right[0] {
        left[0] < right[0]
    } else {
        precedes(left.skip(1), right.skip(1))
    }
}

/// Decides whether `left` comes before `right`.
pub fn bytes_precede(left: &[u8], right: &[u8]) -> (before: bool)
    ensures
        before == precedes(left@, right@),
{
    let mut i: usize = 0;
    assert(left@.skip(0) =~= left@);
    assert(right@.skip(0) =~= right@);
    while i < left.len() && i < right.len()
        invariant
            i <= left@.len(),
            i <= right@.len(),
            precedes(left@, right@) == precedes(left@.skip(i as int), right@.skip(i as int)),
        decreases left@.len() - i,
    {
        let ghost rest_left = left@.skip(i as int);
        let ghost rest_right = right@.skip(i as int);
        assert(rest_left[0] == left@[i as int]);
        assert(rest_right[0] == right@[i as int]);
        if left[i] != right[i] {
            return left[i] < right[i];
        }
        assert(rest_left.skip(1) =~= left@.skip(i + 1));
        assert(rest_right.skip(1) =~= right@.skip(i + 1));
        i += 1;
    }
    i < right.len()
}

/// No byte string comes before itself.
pub proof fn lemma_precedes_is_irreflexive(bytes: Seq<u8>)
    ensures
        !precedes(bytes, bytes),
    decreases bytes.len(),
{
    if bytes.len() > 0 {
        lemma_precedes_is_irreflexive(bytes.skip(1));
    }
}

/// What comes before a string that comes before a third comes before the
/// third.
pub proof fn lemma_precedes_is_transitive(first: Seq<u8>, second: Seq<u8>, third: Seq<u8>)
    requires
        precedes(first, second),
        precedes(second, third),
    ensures
        precedes(first, third),
    decreases first.len(),
{
    if first.len() > 0 && first[0] == second[0] && second[0] == third[0] {
        lemma_precedes_is_transitive(first.skip(1), second.skip(1), third.skip(1));
    }
}

/// Of two different byte strings, one comes before the other.
pub proof fn lemma_precedes_is_total(left: Seq<u8>, right: Seq<u8>)
    requires
        left != right,
    ensures
        precedes(left, right) || precedes(right, left),
    decreases left.len(),
{
    if left.len() > 0 && right.len() > 0 && left[0] == right[0] {
        if left.skip(1) == right.skip(1) {
            assert(left =~= seq![left[0]] + left.skip(1));
            assert(right =~= seq![right[0]] + right.skip(1));
        }
        lemma_precedes_is_total(left.skip(1), right.skip(1));
    } else if left.len() == 0 && right.len() == 0 {
        assert(left =~= right);
    }
}

} // verus!
