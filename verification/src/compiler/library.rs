//! What the host knows about the members of scripting libraries: their
//! bytecode types and their constant values.

use crate::compiler::names::{contains_nul, CName};
use crate::compiler::order::{
    bytes_precede, lemma_precedes_is_irreflexive, lemma_precedes_is_total,
    lemma_precedes_is_transitive, precedes,
};
use vstd::prelude::*;
use vstd::string::StringExecFns;
use vstd::string::StringSliceAdditionalSpecFns;
use vstd::utf8::encode_utf8;

verus! {

/// The tag of the bytecode type nil, `LBC_TYPE_NIL` in the foreign
/// compiler's numbering.
pub const LBC_TYPE_NIL: u32 = 0;

/// The tag that answers for a member whose type is not known: the foreign
/// compiler's tag of nil, `LBC_TYPE_NIL`.
pub const UNKNOWN_MEMBER_TYPE: u32 = LBC_TYPE_NIL;

/// A bytecode type tag, as the foreign compiler numbers them.
#[derive(Debug, Clone, Copy, PartialEq, Eq, Structural)]
pub struct LuauBytecodeType(pub u32);

/// A constant value of a library member.
///
/// Numbers travel as the bit patterns of their IEEE 754 encoding: `Number`
/// holds the 64 bits of a double, `Vector` the 32 bits of each of four
/// single-precision components.
#[derive(Debug, Clone, PartialEq)]
pub enum Constant {
    Nil,
    Bool(bool),
    Number(u64),
    Vector(u32, u32, u32, u32),
    String(String),
}

/// Compares two byte strings, byte for byte.
pub fn bytes_equal(left: &[u8], right: &[u8]) -> (equal: bool)
    ensures
        equal == (left@ == right@),
{
    if left.len() != right.len() {
        return false;
    }
    let mut i: usize = 0;
    while i < left.len()
        invariant
            left@.len() == right@.len(),
            i <= left@.len(),
            forall|j: int| 0 <= j < i ==> left@[j] == right@[j],
        decreases left@.len() - i,
    {
        if left[i] != right[i] {
            return false;
        }
        i += 1;
    }
    assert(left@ =~= right@);
    true
}

/// The key under which a member name is filed: its UTF-8 bytes.
pub open spec fn member_key(name: Seq<char>) -> Seq<u8> {
    encode_utf8(name)
}

/// The key of the entry at `index`.
pub open spec fn key_at<T>(entries: Seq<(String, T)>, index: int) -> Seq<u8> {
    member_key(entries[index].0@)
}

/// No two entries share a key.
pub open spec fn distinct_keys<T>(entries: Seq<(String, T)>) -> bool {
    forall|i: int, j: int|
        0 <= i < entries.len() && 0 <= j < entries.len() && i != j ==> key_at(entries, i)
            != key_at(entries, j)
}

/// The keys stand in ascending order, each before all that follow it.
pub open spec fn ascending_keys<T>(entries: Seq<(String, T)>) -> bool {
    forall|i: int, j: int|
        0 <= i < j < entries.len() ==> precedes(
            #[trigger] key_at(entries, i),
            #[trigger] key_at(entries, j),
        )
}

/// Keys in ascending order are distinct.
pub proof fn lemma_ascending_is_distinct<T>(entries: Seq<(String, T)>)
    requires
        ascending_keys(entries),
    ensures
        distinct_keys(entries),
{
    assert forall|i: int, j: int|
        0 <= i < entries.len() && 0 <= j < entries.len() && i != j implies key_at(entries, i)
        != key_at(entries, j) by {
        lemma_precedes_is_irreflexive(key_at(entries, i));
        if i < j {
            assert(precedes(key_at(entries, i), key_at(entries, j)));
        } else {
            assert(precedes(key_at(entries, j), key_at(entries, i)));
        }
    }
}

/// Some entry is filed under `key`.
pub open spec fn has_key<T>(entries: Seq<(String, T)>, key: Seq<u8>) -> bool {
    exists|i: int| 0 <= i < entries.len() && key_at(entries, i) == key
}

/// The position of an entry filed under `key`.
pub open spec fn position_of<T>(entries: Seq<(String, T)>, key: Seq<u8>) -> int {
    choose|i: int| 0 <= i < entries.len() && key_at(entries, i) == key
}

/// The mapping that a list of entries with distinct keys stands for.
pub open spec fn entries_map<T>(entries: Seq<(String, T)>) -> Map<Seq<u8>, T> {
    Map::new(
        |key: Seq<u8>| has_key(entries, key),
        |key: Seq<u8>| entries[position_of(entries, key)].1,
    )
}

/// With distinct keys, every entry is what the mapping holds under its key.
pub proof fn lemma_entry_in_map<T>(entries: Seq<(String, T)>, index: int)
    requires
        distinct_keys(entries),
        0 <= index < entries.len(),
    ensures
        entries_map(entries).contains_key(key_at(entries, index)),
        entries_map(entries)[key_at(entries, index)] == entries[index].1,
{
    let key = key_at(entries, index);
    assert(has_key(entries, key));
    let found = position_of(entries, key);
    assert(0 <= found < entries.len() && key_at(entries, found) == key);
    assert(found == index);
}

/// Where `key` is filed among `entries`, if anywhere.
fn position<T>(entries: &Vec<(String, T)>, key: &[u8]) -> (found: Option<usize>)
    ensures
        found matches Some(i) ==> i < entries@.len() && key_at(entries@, i as int) == key@,
        found is None ==> !has_key(entries@, key@),
{
    let mut i: usize = 0;
    while i < entries.len()
        invariant
            i <= entries@.len(),
            forall|j: int| 0 <= j < i ==> key_at(entries@, j) != key@,
        decreases entries@.len() - i,
    {
        if bytes_equal(entries[i].0.as_str().as_bytes(), key) {
            return Some(i);
        }
        i += 1;
    }
    None
}

/// Where `key` belongs among entries in ascending order: the place of the
/// entry filed under it, if there is one, and otherwise the place in front
/// of which all keys come before it and from which on all come after it.
fn place_of<T>(entries: &Vec<(String, T)>, key: &[u8]) -> (place: (usize, bool))
    requires
        ascending_keys(entries@),
    ensures
        place.0 <= entries@.len(),
        forall|j: int| 0 <= j < place.0 ==> precedes(#[trigger] key_at(entries@, j), key@),
        place.1 ==> place.0 < entries@.len() && key_at(entries@, place.0 as int) == key@,
        !place.1 ==> forall|j: int|
            place.0 <= j < entries@.len() ==> precedes(key@, #[trigger] key_at(entries@, j)),
{
    let mut i: usize = 0;
    while i < entries.len()
        invariant
            ascending_keys(entries@),
            i <= entries@.len(),
            forall|j: int| 0 <= j < i ==> precedes(#[trigger] key_at(entries@, j), key@),
        decreases entries@.len() - i,
    {
        let name = entries[i].0.as_str().as_bytes();
        if bytes_equal(name, key) {
            return (i, true);
        }
        if !bytes_precede(name, key) {
            proof {
                let here = key_at(entries@, i as int);
                lemma_precedes_is_total(here, key@);
                assert forall|j: int| i <= j < entries@.len() implies precedes(
                    key@,
                    #[trigger] key_at(entries@, j),
                ) by {
                    if j > i {
                        assert(precedes(here, key_at(entries@, j)));
                        lemma_precedes_is_transitive(key@, here, key_at(entries@, j));
                    }
                }
            }
            return (i, false);
        }
        i += 1;
    }
    (i, false)
}

/// A table from member names to values, in which every name occurs at most
/// once. The entries are kept in ascending order of their keys, so two
/// tables with the same members hold them in the same order. Its view is a
/// mapping keyed by the UTF-8 bytes of the names.
#[derive(Debug, PartialEq)]
pub struct MemberTable<T> {
    entries: Vec<(String, T)>,
}

impl<T> View for MemberTable<T> {
    type V = Map<Seq<u8>, T>;

    closed spec fn view(&self) -> Map<Seq<u8>, T> {
        entries_map(self.entries@)
    }
}

impl<T: Clone> Clone for MemberTable<T> {
    /// A table with the same names, each with a clone of its value.
    fn clone(&self) -> (copy: Self)
        ensures
            copy@.dom() == self@.dom(),
            forall|key: Seq<u8>| #[trigger]
                self@.contains_key(key) ==> cloned::<T>(self@[key], copy@[key]),
    {
        proof {
            use_type_invariant(self);
            lemma_ascending_is_distinct(self.entries@);
        }
        let mut entries: Vec<(String, T)> = Vec::new();
        let mut i: usize = 0;
        while i < self.entries.len()
            invariant
                i <= self.entries@.len(),
                entries@.len() == i,
                forall|j: int|
                    0 <= j < i ==> entries@[j].0 == self.entries@[j].0 && cloned::<T>(
                        self.entries@[j].1,
                        entries@[j].1,
                    ),
            decreases self.entries@.len() - i,
        {
            let name = self.entries[i].0.clone();
            let value = self.entries[i].1.clone();
            entries.push((name, value));
            i += 1;
        }
        proof {
            let source = self.entries@;
            let target = entries@;
            assert forall|j: int| 0 <= j < target.len() implies key_at(target, j) == key_at(
                source,
                j,
            ) by {}
            assert(ascending_keys(target)) by {
                assert forall|i: int, j: int| 0 <= i < j < target.len() implies precedes(
                    #[trigger] key_at(target, i),
                    #[trigger] key_at(target, j),
                ) by {
                    assert(precedes(key_at(source, i), key_at(source, j)));
                }
            }
            lemma_ascending_is_distinct(target);
            assert forall|key: Seq<u8>| has_key(source, key) <==> has_key(target, key) by {
                if has_key(source, key) {
                    let j = position_of(source, key);
                    assert(key_at(target, j) == key);
                }
                if has_key(target, key) {
                    let j = position_of(target, key);
                    assert(key_at(source, j) == key);
                }
            }
            assert(entries_map(target).dom() =~= entries_map(source).dom());
            assert forall|key: Seq<u8>| #[trigger]
                entries_map(source).contains_key(key) implies cloned::<T>(
                entries_map(source)[key],
                entries_map(target)[key],
            ) by {
                let j = position_of(source, key);
                assert(key_at(target, j) == key);
                lemma_entry_in_map(source, j);
                lemma_entry_in_map(target, j);
            }
        }
        MemberTable { entries }
    }
}

impl<T> MemberTable<T> {
    #[verifier::type_invariant]
    spec fn names_are_ascending(self) -> bool {
        ascending_keys(self.entries@)
    }

    /// An empty table.
    pub fn new() -> (table: Self)
        ensures
            table@ == Map::<Seq<u8>, T>::empty(),
    {
        let table = MemberTable { entries: Vec::new() };
        assert(table@ =~= Map::<Seq<u8>, T>::empty());
        table
    }

    /// The number of members in the table.
    pub fn len(&self) -> (count: usize)
        ensures
            count == self@.dom().len(),
            self@.dom().finite(),
    {
        proof {
            use_type_invariant(self);
            lemma_ascending_is_distinct(self.entries@);
            lemma_map_size(self.entries@);
        }
        self.entries.len()
    }

    /// The value filed under the name whose UTF-8 bytes are `member`.
    pub fn get(&self, member: &[u8]) -> (value: Option<&T>)
        ensures
            value matches Some(v) ==> self@.contains_key(member@) && self@[member@] == *v,
            value is None ==> !self@.contains_key(member@),
    {
        proof {
            use_type_invariant(self);
            lemma_ascending_is_distinct(self.entries@);
        }
        match position(&self.entries, member) {
            Some(i) => {
                proof {
                    lemma_entry_in_map(self.entries@, i as int);
                }
                Some(&self.entries[i].1)
            },
            None => None,
        }
    }

    /// Files `value` under `member`. A value that was filed under that name
    /// before is replaced and handed back.
    pub fn insert(&mut self, member: String, value: T) -> (previous: Option<T>)
        ensures
            final(self)@ == old(self)@.insert(member_key(member@), value),
            previous matches Some(v) ==> old(self)@.contains_key(member_key(member@)) && old(
                self,
            )@[member_key(member@)] == v,
            previous is None ==> !old(self)@.contains_key(member_key(member@)),
    {
        proof {
            use_type_invariant(&*self);
        }
        let mut entries: Vec<(String, T)> = Vec::new();
        core::mem::swap(&mut self.entries, &mut entries);
        let ghost before = entries@;
        let place = place_of(&entries, member.as_str().as_bytes());
        let previous = if place.1 {
            let removed = entries.remove(place.0);
            entries.insert(place.0, (member, value));
            proof {
                lemma_replaced_entry(before, place.0 as int, member, value);
            }
            Some(removed.1)
        } else {
            entries.insert(place.0, (member, value));
            proof {
                lemma_inserted_entry(before, place.0 as int, member, value);
            }
            None
        };
        self.entries = entries;
        previous
    }
}

/// The mapping of a list with distinct keys has as many keys as the list
/// has entries.
pub proof fn lemma_map_size<T>(entries: Seq<(String, T)>)
    requires
        distinct_keys(entries),
    ensures
        entries_map(entries).dom().finite(),
        entries_map(entries).dom().len() == entries.len(),
    decreases entries.len(),
{
    if entries.len() == 0 {
        assert(entries_map(entries).dom() =~= Set::<Seq<u8>>::empty());
    } else {
        let front = entries.drop_last();
        let last = entries.len() - 1;
        assert forall|i: int, j: int|
            0 <= i < front.len() && 0 <= j < front.len() && i != j implies key_at(front, i)
            != key_at(front, j) by {
            assert(key_at(front, i) == key_at(entries, i));
            assert(key_at(front, j) == key_at(entries, j));
        }
        lemma_map_size(front);
        let key = key_at(entries, last);
        assert(!has_key(front, key)) by {
            if has_key(front, key) {
                let i = position_of(front, key);
                assert(key_at(front, i) == key_at(entries, i));
            }
        }
        assert(entries_map(entries).dom() =~= entries_map(front).dom().insert(key)) by {
            assert forall|k: Seq<u8>| has_key(entries, k) <==> (has_key(front, k) || k == key) by {
                if has_key(entries, k) {
                    let i = position_of(entries, k);
                    if i < last {
                        assert(key_at(front, i) == k);
                    }
                }
                if has_key(front, k) {
                    let i = position_of(front, k);
                    assert(key_at(entries, i) == k);
                }
                if k == key {
                    assert(key_at(entries, last) == k);
                }
            }
        }
    }
}

/// Without its last entry, a list with distinct keys stands for the mapping
/// without the key of that entry.
proof fn lemma_map_without_last<T>(entries: Seq<(String, T)>)
    requires
        distinct_keys(entries),
        entries.len() > 0,
    ensures
        distinct_keys(entries.drop_last()),
        entries_map(entries.drop_last()) == entries_map(entries).remove(
            key_at(entries, entries.len() - 1),
        ),
{
    let front = entries.drop_last();
    let last = entries.len() - 1;
    let key = key_at(entries, last);
    assert forall|j: int| 0 <= j < front.len() implies key_at(front, j) == key_at(entries, j) by {}
    assert(distinct_keys(front)) by {
        assert forall|i: int, j: int|
            0 <= i < front.len() && 0 <= j < front.len() && i != j implies key_at(front, i)
            != key_at(front, j) by {
            assert(key_at(front, i) == key_at(entries, i));
            assert(key_at(front, j) == key_at(entries, j));
        }
    }
    let target = entries_map(entries).remove(key);
    assert forall|k: Seq<u8>| entries_map(front).contains_key(k) <==> target.contains_key(k) by {
        if has_key(front, k) {
            let j = position_of(front, k);
            assert(key_at(entries, j) == k);
        }
        if has_key(entries, k) && k != key {
            let j = position_of(entries, k);
            assert(key_at(front, j) == k);
        }
    }
    assert forall|k: Seq<u8>| entries_map(front).contains_key(k) implies entries_map(front)[k]
        == target[k] by {
        let j = position_of(front, k);
        assert(key_at(entries, j) == k);
        lemma_entry_in_map(front, j);
        lemma_entry_in_map(entries, j);
    }
    assert(entries_map(front) =~= target);
}

/// Two lists in ascending order that stand for the same mapping are the
/// same list: they have the same names with the same values at the same
/// places. This is what keeping the order is for: tables with the same
/// members cannot differ in how they hold them.
pub proof fn lemma_same_members_same_entries<T>(left: Seq<(String, T)>, right: Seq<(String, T)>)
    requires
        ascending_keys(left),
        ascending_keys(right),
        entries_map(left) == entries_map(right),
    ensures
        left.len() == right.len(),
        forall|i: int|
            0 <= i < left.len() ==> #[trigger] left[i].0@ == right[i].0@ && left[i].1
                == right[i].1,
    decreases left.len(),
{
    lemma_ascending_is_distinct(left);
    lemma_ascending_is_distinct(right);
    lemma_map_size(left);
    lemma_map_size(right);
    if left.len() > 0 {
        let last = left.len() - 1;
        let left_key = key_at(left, last);
        let right_key = key_at(right, last);
        lemma_entry_in_map(left, last);
        lemma_entry_in_map(right, last);
        if left_key != right_key {
            lemma_precedes_is_total(left_key, right_key);
            if precedes(left_key, right_key) {
                assert(has_key(left, right_key));
                let j = position_of(left, right_key);
                assert(j < last);
                assert(precedes(key_at(left, j), key_at(left, last)));
                lemma_precedes_is_transitive(right_key, left_key, right_key);
                lemma_precedes_is_irreflexive(right_key);
            } else {
                assert(has_key(right, left_key));
                let j = position_of(right, left_key);
                assert(j < last);
                assert(precedes(key_at(right, j), key_at(right, last)));
                lemma_precedes_is_transitive(left_key, right_key, left_key);
                lemma_precedes_is_irreflexive(left_key);
            }
        }
        assert(left_key == right_key);
        vstd::utf8::encode_utf8_decode_utf8(left[last].0@);
        vstd::utf8::encode_utf8_decode_utf8(right[last].0@);
        lemma_map_without_last(left);
        lemma_map_without_last(right);
        let left_front = left.drop_last();
        let right_front = right.drop_last();
        assert(ascending_keys(left_front)) by {
            assert forall|i: int, j: int| 0 <= i < j < left_front.len() implies precedes(
                #[trigger] key_at(left_front, i),
                #[trigger] key_at(left_front, j),
            ) by {
                assert(precedes(key_at(left, i), key_at(left, j)));
            }
        }
        assert(ascending_keys(right_front)) by {
            assert forall|i: int, j: int| 0 <= i < j < right_front.len() implies precedes(
                #[trigger] key_at(right_front, i),
                #[trigger] key_at(right_front, j),
            ) by {
                assert(precedes(key_at(right, i), key_at(right, j)));
            }
        }
        lemma_same_members_same_entries(left_front, right_front);
        assert forall|i: int| 0 <= i < left.len() implies #[trigger] left[i].0@ == right[i].0@
            && left[i].1 == right[i].1 by {
            if i < last {
                assert(left_front[i] == left[i]);
                assert(right_front[i] == right[i]);
            }
        }
    }
}

/// Putting a new value in the place of the entry under its key keeps the
/// order and is an insertion into the mapping.
proof fn lemma_replaced_entry<T>(before: Seq<(String, T)>, place: int, member: String, value: T)
    requires
        ascending_keys(before),
        0 <= place < before.len(),
        key_at(before, place) == member_key(member@),
    ensures
        ascending_keys(before.remove(place).insert(place, (member, value))),
        entries_map(before).contains_key(member_key(member@)),
        entries_map(before)[member_key(member@)] == before[place].1,
        entries_map(before.remove(place).insert(place, (member, value))) == entries_map(
            before,
        ).insert(member_key(member@), value),
{
    let key = member_key(member@);
    let after = before.remove(place).insert(place, (member, value));
    assert(after =~= before.update(place, (member, value)));
    assert forall|j: int| 0 <= j < after.len() implies key_at(after, j) == key_at(before, j) by {}
    assert(ascending_keys(after)) by {
        assert forall|i: int, j: int| 0 <= i < j < after.len() implies precedes(
            #[trigger] key_at(after, i),
            #[trigger] key_at(after, j),
        ) by {
            assert(precedes(key_at(before, i), key_at(before, j)));
        }
    }
    lemma_ascending_is_distinct(before);
    lemma_ascending_is_distinct(after);
    lemma_entry_in_map(before, place);
    let target = entries_map(before).insert(key, value);
    assert forall|k: Seq<u8>| entries_map(after).contains_key(k) <==> target.contains_key(k) by {
        if has_key(after, k) {
            let j = position_of(after, k);
            assert(key_at(before, j) == k);
        }
        if has_key(before, k) {
            let j = position_of(before, k);
            assert(key_at(after, j) == k);
        }
        if k == key {
            assert(key_at(after, place) == k);
        }
    }
    assert forall|k: Seq<u8>| entries_map(after).contains_key(k) implies entries_map(after)[k]
        == target[k] by {
        let j = position_of(after, k);
        lemma_entry_in_map(after, j);
        if k != key {
            assert(j != place);
            lemma_entry_in_map(before, j);
        } else {
            assert(key_at(after, place) == k);
            assert(j == place);
        }
    }
    assert(entries_map(after) =~= target);
}

/// Putting an entry under a new key at the place where the key belongs
/// keeps the order and is an insertion into the mapping.
proof fn lemma_inserted_entry<T>(before: Seq<(String, T)>, place: int, member: String, value: T)
    requires
        ascending_keys(before),
        0 <= place <= before.len(),
        forall|j: int|
            0 <= j < place ==> precedes(#[trigger] key_at(before, j), member_key(member@)),
        forall|j: int|
            place <= j < before.len() ==> precedes(
                member_key(member@),
                #[trigger] key_at(before, j),
            ),
    ensures
        ascending_keys(before.insert(place, (member, value))),
        !entries_map(before).contains_key(member_key(member@)),
        entries_map(before.insert(place, (member, value))) == entries_map(before).insert(
            member_key(member@),
            value,
        ),
{
    let key = member_key(member@);
    let after = before.insert(place, (member, value));
    before.insert_ensures(place, (member, value));
    assert(key_at(after, place) == key);
    assert forall|j: int| 0 <= j < place implies key_at(after, j) == key_at(before, j) by {}
    assert forall|j: int| place < j < after.len() implies key_at(after, j) == key_at(
        before,
        j - 1,
    ) by {
        assert(after[(j - 1) + 1] == before[j - 1]);
    }
    assert(ascending_keys(after)) by {
        assert forall|i: int, j: int| 0 <= i < j < after.len() implies precedes(
            #[trigger] key_at(after, i),
            #[trigger] key_at(after, j),
        ) by {
            let from_i = if i < place { i } else { i - 1 };
            let from_j = if j < place { j } else { j - 1 };
            if i == place {
                assert(precedes(key, key_at(before, from_j)));
            } else if j == place {
                assert(precedes(key_at(before, from_i), key));
            } else {
                assert(precedes(key_at(before, from_i), key_at(before, from_j)));
            }
        }
    }
    lemma_precedes_is_irreflexive(key);
    assert(!has_key(before, key)) by {
        if has_key(before, key) {
            let j = position_of(before, key);
            if j < place {
                assert(precedes(key_at(before, j), key));
            } else {
                assert(precedes(key, key_at(before, j)));
            }
        }
    }
    lemma_ascending_is_distinct(before);
    lemma_ascending_is_distinct(after);
    let target = entries_map(before).insert(key, value);
    assert forall|k: Seq<u8>| entries_map(after).contains_key(k) <==> target.contains_key(k) by {
        if has_key(after, k) && k != key {
            let j = position_of(after, k);
            let source = if j < place { j } else { j - 1 };
            assert(key_at(before, source) == k);
        }
        if has_key(before, k) {
            let j = position_of(before, k);
            let dest = if j < place { j } else { j + 1 };
            assert(key_at(after, dest) == k);
        }
        if k == key {
            assert(key_at(after, place) == k);
        }
    }
    assert forall|k: Seq<u8>| entries_map(after).contains_key(k) implies entries_map(after)[k]
        == target[k] by {
        let j = position_of(after, k);
        lemma_entry_in_map(after, j);
        if k != key {
            let source = if j < place { j } else { j - 1 };
            assert(key_at(before, source) == k);
            assert(after[j] == before[source]);
            lemma_entry_in_map(before, source);
        } else {
            assert(j == place);
        }
    }
    assert(entries_map(after) =~= target);
}

/// A scripting library as the host describes it: its name, the bytecode
/// types of its members and the constant values of its members. A member may
/// have both a type and a constant.
#[derive(Debug, Clone, PartialEq)]
pub struct LibraryWithKnownMembers {
    pub name: String,
    pub types: MemberTable<LuauBytecodeType>,
    pub constants: MemberTable<Constant>,
}

impl LibraryWithKnownMembers {
    /// A library called `name` of which no member is known yet.
    pub fn new(name: &str) -> (library: Self)
        ensures
            library.name@ == name@,
            library.types@ == Map::<Seq<u8>, LuauBytecodeType>::empty(),
            library.constants@ == Map::<Seq<u8>, Constant>::empty(),
    {
        LibraryWithKnownMembers {
            name: String::from_str(name),
            types: MemberTable::new(),
            constants: MemberTable::new(),
        }
    }
}

/// A library descriptor whose name is ready for the foreign compiler.
#[derive(Debug, Clone, PartialEq)]
pub struct LibraryWithKnownMembersC {
    pub name: CName,
    pub types: MemberTable<LuauBytecodeType>,
    pub constants: MemberTable<Constant>,
}

impl LibraryWithKnownMembersC {
    /// This descriptor is `library` with its name terminated: the name has
    /// the same bytes, and the two tables are the same.
    pub open spec fn is_from(&self, library: LibraryWithKnownMembers) -> bool {
        &&& self.name@ == member_key(library.name@)
        &&& self.types == library.types
        &&& self.constants == library.constants
    }

    /// The same library, with its name terminated for the foreign compiler.
    /// The name must not hold a zero byte.
    pub fn from(value: LibraryWithKnownMembers) -> (library: Self)
        requires
            !contains_nul(member_key(value.name@)),
        ensures
            library.is_from(value),
    {
        let name = CName::new(value.name.as_str());
        LibraryWithKnownMembersC {
            name: name.unwrap(),
            types: value.types,
            constants: value.constants,
        }
    }
}

/// The first library in the list whose name is `name`, byte for byte.
pub open spec fn first_named(
    libraries: Seq<LibraryWithKnownMembersC>,
    name: Seq<u8>,
) -> Option<LibraryWithKnownMembersC>
    decreases libraries.len(),
{
    if libraries.len() == 0 {
        None
    } else if libraries[0].name@ == name {
        Some(libraries[0])
    } else {
        first_named(libraries.subrange(1, libraries.len() as int), name)
    }
}

/// The bytecode type that the list knows for `member` of `library`: the
/// entry under `member` in the type table of the first library of that
/// name.
pub open spec fn member_type_of(
    libraries: Seq<LibraryWithKnownMembersC>,
    library: Seq<u8>,
    member: Seq<u8>,
) -> Option<LuauBytecodeType> {
    match first_named(libraries, library) {
        Some(found) => if found.types@.contains_key(member) {
            Some(found.types@[member])
        } else {
            None
        },
        None => None,
    }
}

/// The constant that the list knows for `member` of `library`: the entry
/// under `member` in the constant table of the first library of that name.
pub open spec fn member_constant_of(
    libraries: Seq<LibraryWithKnownMembersC>,
    library: Seq<u8>,
    member: Seq<u8>,
) -> Option<Constant> {
    match first_named(libraries, library) {
        Some(found) => if found.constants@.contains_key(member) {
            Some(found.constants@[member])
        } else {
            None
        },
        None => None,
    }
}

/// Finds the first library called `name`.
pub fn find_library<'a>(libraries: &'a [LibraryWithKnownMembersC], name: &[u8]) -> (found: Option<
    &'a LibraryWithKnownMembersC,
>)
    ensures
        found matches Some(library) ==> first_named(libraries@, name@) == Some(*library),
        found is None ==> first_named(libraries@, name@) is None,
{
    let mut i: usize = 0;
    assert(libraries@.subrange(0, libraries@.len() as int) =~= libraries@);
    while i < libraries.len()
        invariant
            i <= libraries@.len(),
            first_named(libraries@, name@) == first_named(
                libraries@.subrange(i as int, libraries@.len() as int),
                name@,
            ),
        decreases libraries@.len() - i,
    {
        let ghost rest = libraries@.subrange(i as int, libraries@.len() as int);
        if bytes_equal(libraries[i].name.as_bytes(), name) {
            assert(rest[0] == libraries@[i as int]);
            return Some(&libraries[i]);
        }
        assert(rest.subrange(1, rest.len() as int) =~= libraries@.subrange(
            i + 1,
            libraries@.len() as int,
        ));
        i += 1;
    }
    None
}

/// Looks up the bytecode type of `member` of `library`.
pub fn lookup_member_type(
    libraries: &[LibraryWithKnownMembersC],
    library: &[u8],
    member: &[u8],
) -> (found: Option<LuauBytecodeType>)
    ensures
        found == member_type_of(libraries@, library@, member@),
{
    match find_library(libraries, library) {
        Some(entry) => match entry.types.get(member) {
            Some(tag) => Some(*tag),
            None => None,
        },
        None => None,
    }
}

/// Looks up the constant value of `member` of `library`.
pub fn lookup_member_constant<'a>(
    libraries: &'a [LibraryWithKnownMembersC],
    library: &[u8],
    member: &[u8],
) -> (found: Option<&'a Constant>)
    ensures
        found matches Some(value) ==> member_constant_of(libraries@, library@, member@) == Some(
            *value,
        ),
        found is None ==> member_constant_of(libraries@, library@, member@) is None,
{
    match find_library(libraries, library) {
        Some(entry) => entry.constants.get(member),
        None => None,
    }
}

/// The tag that answers a type query: the type that was found, and
/// `UNKNOWN_MEMBER_TYPE` for a member of which nothing is known.
pub open spec fn type_answer_of(found: Option<LuauBytecodeType>) -> LuauBytecodeType {
    match found {
        Some(tag) => tag,
        None => LuauBytecodeType(UNKNOWN_MEMBER_TYPE),
    }
}

/// The tag that answers a type query.
pub fn type_answer(found: Option<LuauBytecodeType>) -> (tag: LuauBytecodeType)
    ensures
        tag == type_answer_of(found),
{
    match found {
        Some(tag) => tag,
        None => LuauBytecodeType(UNKNOWN_MEMBER_TYPE),
    }
}

/// What to write to the slot of the foreign compiler in answer to a constant
/// query. Each variant stands for one setter of the foreign compiler and
/// holds the arguments of that setter.
#[derive(Debug, Clone, Copy, PartialEq)]
pub enum ConstantWrite<'a> {
    Nil,
    /// The boolean as an integer: one for true, zero for false.
    Boolean(i32),
    /// The bits of the double.
    Number(u64),
    /// The bits of the four components.
    Vector(u32, u32, u32, u32),
    /// The bytes of the string; the foreign compiler takes them with their
    /// length, so they carry no terminator.
    String(&'a [u8]),
}

/// `write` is the answer to a constant query that found `found`: the value
/// that was found in the form of its own variant, and nil for a member of
/// which nothing is known.
pub open spec fn is_constant_answer(write: ConstantWrite, found: Option<Constant>) -> bool {
    match found {
        None => write is Nil,
        Some(Constant::Nil) => write is Nil,
        Some(Constant::Bool(flag)) => write == ConstantWrite::Boolean(
            if flag {
                1i32
            } else {
                0i32
            },
        ),
        Some(Constant::Number(bits)) => write == ConstantWrite::Number(bits),
        Some(Constant::Vector(x, y, z, w)) => write == ConstantWrite::Vector(x, y, z, w),
        Some(Constant::String(text)) => write matches ConstantWrite::String(bytes) && bytes@
            == encode_utf8(text@),
    }
}

/// The write that answers a constant query.
pub fn constant_answer<'a>(found: Option<&'a Constant>) -> (write: ConstantWrite<'a>)
    ensures
        is_constant_answer(
            write,
            match found {
                Some(value) => Some(*value),
                None => None,
            },
        ),
{
    match found {
        None => ConstantWrite::Nil,
        Some(Constant::Nil) => ConstantWrite::Nil,
        Some(Constant::Bool(flag)) => ConstantWrite::Boolean(
            if *flag {
                1
            } else {
                0
            },
        ),
        Some(Constant::Number(bits)) => ConstantWrite::Number(*bits),
        Some(Constant::Vector(x, y, z, w)) => ConstantWrite::Vector(*x, *y, *z, *w),
        Some(Constant::String(text)) => ConstantWrite::String(text.as_str().as_bytes()),
    }
}

} // verus!
