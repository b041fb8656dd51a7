use luau::compiler::library::{
    bytes_equal, constant_answer, find_library, lookup_member_constant, lookup_member_type,
    type_answer, LBC_TYPE_NIL, UNKNOWN_MEMBER_TYPE,
};
use luau::compiler::order::bytes_precede;
use luau::compiler::{
    CompilerOptions, Constant, ConstantWrite, LibraryChannel, LibraryWithKnownMembers, LibraryWithKnownMembersC,
    LuauBytecodeType, MemberTable,
};

const PI: f64 = 3.14159;

fn math() -> LibraryWithKnownMembersC {
    let mut library = LibraryWithKnownMembers::new("Math");
    library.constants.insert(String::from("pi"), Constant::Number(PI.to_bits()));
    library.types.insert(String::from("sqrt"), LuauBytecodeType(5));
    library.types.insert(String::from("pi"), LuauBytecodeType(2));
    LibraryWithKnownMembersC::from(library)
}

#[test]
fn bytes_are_compared_exactly() {
    assert!(bytes_equal(b"", b""));
    assert!(bytes_equal(b"Math", b"Math"));
    assert!(!bytes_equal(b"Math", b"math"));
    assert!(!bytes_equal(b"Math", b"Mat"));
    assert!(!bytes_equal(b"Mat", b"Math"));
    assert!(!bytes_equal(b"Math", b"Mats"));
}

#[test]
fn new_library_knows_no_member() {
    let library = LibraryWithKnownMembers::new("Math");
    assert_eq!(library.name, "Math");
    assert_eq!(library.types.len(), 0);
    assert_eq!(library.constants.len(), 0);
    assert_eq!(library.types.get(b"pi"), None);
}

#[test]
fn table_insert_files_and_replaces() {
    let mut table: MemberTable<u32> = MemberTable::new();
    assert_eq!(table.insert(String::from("a"), 1), None);
    assert_eq!(table.insert(String::from("b"), 2), None);
    assert_eq!(table.len(), 2);
    assert_eq!(table.insert(String::from("a"), 3), Some(1));
    assert_eq!(table.len(), 2);
    assert_eq!(table.get(b"a"), Some(&3));
    assert_eq!(table.get(b"b"), Some(&2));
    assert_eq!(table.get(b"c"), None);
    assert_eq!(table.get(b"A"), None);
    assert_eq!(table.get(b""), None);
}

#[test]
fn table_clone_keeps_every_entry() {
    let mut table: MemberTable<Constant> = MemberTable::new();
    table.insert(String::from("name"), Constant::String(String::from("luau")));
    table.insert(String::from("on"), Constant::Bool(true));
    let copy = table.clone();
    assert_eq!(copy, table);
    assert_eq!(copy.get(b"name"), Some(&Constant::String(String::from("luau"))));
    assert_eq!(copy.len(), 2);
}

#[test]
fn conversion_keeps_name_and_tables() {
    let library = math();
    assert_eq!(library.name.as_bytes(), b"Math");
    assert_eq!(library.name.as_bytes_with_nul(), b"Math\0");
    assert_eq!(library.types.len(), 2);
    assert_eq!(library.constants.len(), 1);
}

#[test]
fn constant_of_known_member_is_found() {
    let libraries = vec![math()];
    assert_eq!(
        lookup_member_constant(&libraries, b"Math", b"pi"),
        Some(&Constant::Number(PI.to_bits()))
    );
    let found = lookup_member_constant(&libraries, b"Math", b"pi");
    assert_eq!(constant_answer(found), ConstantWrite::Number(PI.to_bits()));
    match constant_answer(found) {
        ConstantWrite::Number(bits) => assert_eq!(f64::from_bits(bits), 3.14159),
        other => panic!("unexpected answer {:?}", other),
    }
}

#[test]
fn constant_of_unknown_member_is_nil() {
    let libraries = vec![math()];
    assert_eq!(lookup_member_constant(&libraries, b"Math", b"missing"), None);
    assert_eq!(lookup_member_constant(&libraries, b"Other", b"pi"), None);
    assert_eq!(
        constant_answer(lookup_member_constant(&libraries, b"Math", b"missing")),
        ConstantWrite::Nil
    );
    assert_eq!(
        constant_answer(lookup_member_constant(&libraries, b"Other", b"pi")),
        ConstantWrite::Nil
    );
}

#[test]
fn type_of_known_member_is_found() {
    let libraries = vec![math()];
    assert_eq!(lookup_member_type(&libraries, b"Math", b"sqrt"), Some(LuauBytecodeType(5)));
    assert_eq!(lookup_member_type(&libraries, b"Math", b"pi"), Some(LuauBytecodeType(2)));
    assert_eq!(type_answer(Some(LuauBytecodeType(5))), LuauBytecodeType(5));
}

#[test]
fn type_of_unknown_member_is_the_nil_tag() {
    let libraries = vec![math()];
    assert_eq!(lookup_member_type(&libraries, b"Math", b"missing"), None);
    assert_eq!(lookup_member_type(&libraries, b"Other", b"sqrt"), None);
    assert_eq!(lookup_member_type(&[], b"Math", b"sqrt"), None);
    assert_eq!(LBC_TYPE_NIL, 0);
    assert_eq!(UNKNOWN_MEMBER_TYPE, LBC_TYPE_NIL);
    assert_eq!(type_answer(None), LuauBytecodeType(UNKNOWN_MEMBER_TYPE));
    assert_eq!(type_answer(None), LuauBytecodeType(0));
}

#[test]
fn names_match_byte_for_byte() {
    let libraries = vec![math()];
    assert_eq!(lookup_member_type(&libraries, b"math", b"sqrt"), None);
    assert_eq!(lookup_member_type(&libraries, b"Math", b"Sqrt"), None);
    assert_eq!(lookup_member_type(&libraries, b"Math ", b"sqrt"), None);
    assert_eq!(lookup_member_type(&libraries, b"Math", b"sqr"), None);
    assert_eq!(lookup_member_type(&libraries, b"Math", &[0xff, 0xfe]), None);
}

#[test]
fn types_and_constants_are_separate_tables() {
    let libraries = vec![math()];
    assert_eq!(lookup_member_constant(&libraries, b"Math", b"sqrt"), None);
    assert!(lookup_member_type(&libraries, b"Math", b"pi").is_some());
    assert!(lookup_member_constant(&libraries, b"Math", b"pi").is_some());
}

#[test]
fn first_library_of_a_name_decides() {
    let mut first = LibraryWithKnownMembers::new("Math");
    first.constants.insert(String::from("e"), Constant::Number(1));
    let mut second = LibraryWithKnownMembers::new("Math");
    second.constants.insert(String::from("e"), Constant::Number(2));
    second.constants.insert(String::from("tau"), Constant::Number(3));
    let libraries =
        vec![LibraryWithKnownMembersC::from(first), LibraryWithKnownMembersC::from(second)];
    assert_eq!(lookup_member_constant(&libraries, b"Math", b"e"), Some(&Constant::Number(1)));
    assert_eq!(lookup_member_constant(&libraries, b"Math", b"tau"), None);
    let found = find_library(&libraries, b"Math").unwrap();
    assert_eq!(found.constants.len(), 1);
}

#[test]
fn later_libraries_are_found_too() {
    let mut strings = LibraryWithKnownMembers::new("Strings");
    strings.types.insert(String::from("len"), LuauBytecodeType(5));
    let libraries = vec![math(), LibraryWithKnownMembersC::from(strings)];
    assert_eq!(lookup_member_type(&libraries, b"Strings", b"len"), Some(LuauBytecodeType(5)));
    assert_eq!(find_library(&libraries, b"Strings").unwrap().name.as_bytes(), b"Strings");
    assert!(find_library(&libraries, b"Tables").is_none());
}

#[test]
fn every_variant_has_its_own_write() {
    assert_eq!(constant_answer(None), ConstantWrite::Nil);
    assert_eq!(constant_answer(Some(&Constant::Nil)), ConstantWrite::Nil);
    assert_eq!(constant_answer(Some(&Constant::Bool(true))), ConstantWrite::Boolean(1));
    assert_eq!(constant_answer(Some(&Constant::Bool(false))), ConstantWrite::Boolean(0));
    assert_eq!(
        constant_answer(Some(&Constant::Number(2.5f64.to_bits()))),
        ConstantWrite::Number(2.5f64.to_bits())
    );
    assert_eq!(
        constant_answer(Some(&Constant::Vector(
            1.0f32.to_bits(),
            2.0f32.to_bits(),
            3.0f32.to_bits(),
            0.0f32.to_bits()
        ))),
        ConstantWrite::Vector(
            1.0f32.to_bits(),
            2.0f32.to_bits(),
            3.0f32.to_bits(),
            0.0f32.to_bits()
        )
    );
    let text = Constant::String(String::from("h\u{e9}llo"));
    assert_eq!(constant_answer(Some(&text)), ConstantWrite::String("h\u{e9}llo".as_bytes()));
}

#[test]
fn channel_without_call_knows_nothing() {
    let channel = LibraryChannel::new();
    assert_eq!(channel.depth(), 0);
    assert!(channel.current().is_empty());
    assert_eq!(channel.member_type(b"Math", b"sqrt"), None);
    assert_eq!(channel.member_constant(b"Math", b"pi"), (ConstantWrite::Nil, false));
}

#[test]
fn channel_serves_the_call_under_way() {
    let mut channel = LibraryChannel::new();
    channel.enter(vec![math()]);
    assert_eq!(channel.depth(), 1);
    assert_eq!(channel.member_type(b"Math", b"sqrt"), Some(LuauBytecodeType(5)));
    assert_eq!(
        channel.member_constant(b"Math", b"pi"),
        (ConstantWrite::Number(PI.to_bits()), true)
    );
    assert_eq!(channel.member_constant(b"Math", b"missing"), (ConstantWrite::Nil, false));
    let libraries = channel.leave().unwrap();
    assert_eq!(libraries, vec![math()]);
    assert_eq!(channel.depth(), 0);
    assert_eq!(channel.member_type(b"Math", b"sqrt"), None);
}

#[test]
fn channel_tells_a_nil_constant_from_an_unknown_member() {
    let mut library = LibraryWithKnownMembers::new("Math");
    library.constants.insert(String::from("nothing"), Constant::Nil);
    let mut channel = LibraryChannel::new();
    channel.enter(vec![LibraryWithKnownMembersC::from(library)]);
    assert_eq!(channel.member_constant(b"Math", b"nothing"), (ConstantWrite::Nil, true));
    assert_eq!(channel.member_constant(b"Math", b"other"), (ConstantWrite::Nil, false));
}

#[test]
fn nested_call_hides_the_outer_one_until_it_ends() {
    let mut inner = LibraryWithKnownMembers::new("Inner");
    inner.types.insert(String::from("f"), LuauBytecodeType(7));
    let mut channel = LibraryChannel::new();
    channel.enter(vec![math()]);
    channel.enter(vec![LibraryWithKnownMembersC::from(inner)]);
    assert_eq!(channel.depth(), 2);
    assert_eq!(channel.member_type(b"Inner", b"f"), Some(LuauBytecodeType(7)));
    assert_eq!(channel.member_type(b"Math", b"sqrt"), None);
    assert!(channel.leave().is_some());
    assert_eq!(channel.member_type(b"Math", b"sqrt"), Some(LuauBytecodeType(5)));
    assert_eq!(channel.member_type(b"Inner", b"f"), None);
    assert!(channel.leave().is_some());
    assert_eq!(channel.depth(), 0);
}

#[test]
fn leaving_an_empty_channel_changes_nothing() {
    let mut channel = LibraryChannel::new();
    assert_eq!(channel.leave(), None);
    assert_eq!(channel.depth(), 0);
}

#[test]
fn byte_strings_are_ordered_byte_by_byte() {
    assert!(bytes_precede(b"", b"a"));
    assert!(bytes_precede(b"a", b"b"));
    assert!(bytes_precede(b"a", b"ab"));
    assert!(bytes_precede(b"ab", b"b"));
    assert!(bytes_precede(b"Math", b"math"));
    assert!(bytes_precede(&[0x7f], &[0x80]));
    assert!(!bytes_precede(b"", b""));
    assert!(!bytes_precede(b"a", b""));
    assert!(!bytes_precede(b"a", b"a"));
    assert!(!bytes_precede(b"b", b"a"));
    assert!(!bytes_precede(b"ab", b"a"));
    assert!(!bytes_precede(b"b", b"ab"));
}

#[test]
fn byte_order_agrees_with_slices() {
    let samples: [&[u8]; 8] = [b"", b"a", b"ab", b"abc", b"b", b"ba", &[0xff], &[0x00, 0x01]];
    for left in samples {
        for right in samples {
            assert_eq!(bytes_precede(left, right), left < right);
        }
    }
}

#[test]
fn tables_with_the_same_members_are_equal() {
    let mut forward: MemberTable<u32> = MemberTable::new();
    forward.insert(String::from("a"), 1);
    forward.insert(String::from("b"), 2);
    forward.insert(String::from("c"), 3);
    let mut backward: MemberTable<u32> = MemberTable::new();
    backward.insert(String::from("c"), 3);
    backward.insert(String::from("b"), 2);
    backward.insert(String::from("a"), 1);
    assert_eq!(forward, backward);
    let mut shuffled: MemberTable<u32> = MemberTable::new();
    shuffled.insert(String::from("b"), 9);
    shuffled.insert(String::from("a"), 1);
    shuffled.insert(String::from("c"), 3);
    assert_ne!(forward, shuffled);
    assert_eq!(shuffled.insert(String::from("b"), 2), Some(9));
    assert_eq!(forward, shuffled);
    assert_eq!(shuffled.len(), 3);
}

#[test]
fn replacing_a_value_keeps_tables_comparable() {
    let mut first: MemberTable<u32> = MemberTable::new();
    first.insert(String::from("x"), 1);
    first.insert(String::from("y"), 2);
    let mut second = first.clone();
    assert_eq!(second.insert(String::from("x"), 7), Some(1));
    assert_ne!(first, second);
    assert_eq!(second.insert(String::from("x"), 1), Some(7));
    assert_eq!(first, second);
    assert_eq!(second.get(b"x"), Some(&1));
    assert_eq!(second.get(b"y"), Some(&2));
}

#[test]
fn options_with_the_same_libraries_are_equal() {
    let mut one = LibraryWithKnownMembers::new("Math");
    one.constants.insert(String::from("pi"), Constant::Number(1));
    one.constants.insert(String::from("e"), Constant::Number(2));
    let mut other = LibraryWithKnownMembers::new("Math");
    other.constants.insert(String::from("e"), Constant::Number(2));
    other.constants.insert(String::from("pi"), Constant::Number(1));
    assert_eq!(one, other);
    let mut left = CompilerOptions::new();
    left.add_known_library(one);
    let mut right = CompilerOptions::new();
    right.add_known_library(other);
    assert_eq!(left, right);
}

#[test]
fn many_inserts_in_any_order_are_all_found() {
    let names: [&str; 7] = ["delta", "alpha", "golf", "bravo", "", "alphabet", "al"];
    let mut table: MemberTable<usize> = MemberTable::new();
    for (index, name) in names.iter().enumerate() {
        assert_eq!(table.insert(String::from(*name), index), None);
    }
    assert_eq!(table.len(), 7);
    for (index, name) in names.iter().enumerate() {
        assert_eq!(table.get(name.as_bytes()), Some(&index));
    }
    assert_eq!(table.get(b"alp"), None);
    assert_eq!(table.get(b"hotel"), None);
}
