//! Flattening of a configuration into the record that the foreign compiler
//! reads: numbers for the levels, and for every name the bytes that a
//! pointer will point at.
//!
//! A pointer is modelled as an optional byte string: `Some` holds what the
//! pointer points at, `None` is the null pointer. A list of names becomes a
//! list of such pointers that ends with one null pointer.

use crate::compiler::names::{CName, NUL};
use crate::compiler::options::{CompilerOptions, OptionsView};
use vstd::prelude::*;

verus! {

/// The flat record of one compile call. It borrows every name from the
/// configuration it was made from, so it cannot outlive it.
#[derive(Debug, Clone, PartialEq)]
pub struct MarshalledOptions<'a> {
    pub optimization_level: i32,
    pub debug_level: i32,
    pub type_info_level: i32,
    pub coverage_level: i32,
    pub vector_lib: Option<&'a [u8]>,
    pub vector_ctor: Option<&'a [u8]>,
    pub vector_type: Option<&'a [u8]>,
    pub mutable_globals: Vec<Option<&'a [u8]>>,
    pub userdata_types: Vec<Option<&'a [u8]>>,
    pub libraries_with_known_members: Vec<Option<&'a [u8]>>,
    pub disabled_builtins: Vec<Option<&'a [u8]>>,
}

/// A flat record as plain values.
pub struct RecordView {
    pub optimization_level: i32,
    pub debug_level: i32,
    pub type_info_level: i32,
    pub coverage_level: i32,
    pub vector_lib: Option<Seq<u8>>,
    pub vector_ctor: Option<Seq<u8>>,
    pub vector_type: Option<Seq<u8>>,
    pub mutable_globals: Seq<Option<Seq<u8>>>,
    pub userdata_types: Seq<Option<Seq<u8>>>,
    pub libraries_with_known_members: Seq<Option<Seq<u8>>>,
    pub disabled_builtins: Seq<Option<Seq<u8>>>,
}

/// What a pointer points at, as plain bytes.
pub open spec fn pointer_view(pointer: Option<&[u8]>) -> Option<Seq<u8>> {
    match pointer {
        Some(bytes) => Some(bytes@),
        None => None,
    }
}

/// What each pointer of a list points at.
pub open spec fn pointers_view(pointers: Seq<Option<&[u8]>>) -> Seq<Option<Seq<u8>>> {
    Seq::new(pointers.len(), |i: int| pointer_view(pointers[i]))
}

impl<'a> View for MarshalledOptions<'a> {
    type V = RecordView;

    open spec fn view(&self) -> RecordView {
        RecordView {
            optimization_level: self.optimization_level,
            debug_level: self.debug_level,
            type_info_level: self.type_info_level,
            coverage_level: self.coverage_level,
            vector_lib: pointer_view(self.vector_lib),
            vector_ctor: pointer_view(self.vector_ctor),
            vector_type: pointer_view(self.vector_type),
            mutable_globals: pointers_view(self.mutable_globals@),
            userdata_types: pointers_view(self.userdata_types@),
            libraries_with_known_members: pointers_view(self.libraries_with_known_members@),
            disabled_builtins: pointers_view(self.disabled_builtins@),
        }
    }
}

/// The pointer list for a list of names: each name with its terminating
/// zero byte, in the order of the list, and a null pointer at the end.
pub open spec fn terminated_list(names: Seq<Seq<u8>>) -> Seq<Option<Seq<u8>>> {
    Seq::new(
        names.len() + 1,
        |i: int|
            if i < names.len() {
                Some(names[i].push(NUL))
            } else {
                None
            },
    )
}

/// The names of the library descriptors.
pub open spec fn library_names(options: OptionsView) -> Seq<Seq<u8>> {
    Seq::new(options.known_libraries.len(), |i: int| options.known_libraries[i].name@)
}

/// The flat record for a configuration.
///
/// The levels become their numbers and the flag becomes one or zero. The
/// three pointers of the alternate vector type are all set or all null.
pub open spec fn marshalled(options: OptionsView) -> RecordView {
    RecordView {
        optimization_level: options.optimization.spec_level(),
        debug_level: options.debug.spec_level(),
        type_info_level: if options.generate_type_info_for_all {
            1
        } else {
            0
        },
        coverage_level: options.coverage.spec_level(),
        vector_lib: match options.alt_vector {
            Some(vector) => Some(vector.0.push(NUL)),
            None => None,
        },
        vector_ctor: match options.alt_vector {
            Some(vector) => Some(vector.1.push(NUL)),
            None => None,
        },
        vector_type: match options.alt_vector {
            Some(vector) => Some(vector.2.push(NUL)),
            None => None,
        },
        mutable_globals: terminated_list(options.mutable_globals),
        userdata_types: terminated_list(options.userdata_types),
        libraries_with_known_members: terminated_list(library_names(options)),
        disabled_builtins: terminated_list(options.disabled_builtins),
    }
}

/// Builds the pointer list for a list of names.
pub fn pointer_list<'a>(names: &'a [CName]) -> (pointers: Vec<Option<&'a [u8]>>)
    ensures
        pointers_view(pointers@) == terminated_list(crate::compiler::options::names_of(names@)),
{
    let mut pointers: Vec<Option<&'a [u8]>> = Vec::new();
    let mut i: usize = 0;
    while i < names.len()
        invariant
            i <= names@.len(),
            pointers@.len() == i,
            forall|j: int| 0 <= j < i ==> pointer_view(pointers@[j]) == Some(names@[j]@.push(NUL)),
        decreases names@.len() - i,
    {
        pointers.push(Some(names[i].as_bytes_with_nul()));
        i += 1;
    }
    pointers.push(None);
    assert(pointers_view(pointers@) =~= terminated_list(
        crate::compiler::options::names_of(names@),
    ));
    pointers
}

impl CompilerOptions {
    /// Flattens the configuration for one compile call.
    pub fn marshal(&self) -> (record: MarshalledOptions<'_>)
        ensures
            record@ == marshalled(self@),
    {
        let (vector_lib, vector_ctor, vector_type) = match &self.alt_vector {
            Some(vector) => (
                Some(vector.library_name.as_bytes_with_nul()),
                Some(vector.constructor.as_bytes_with_nul()),
                Some(vector.vector_type_name.as_bytes_with_nul()),
            ),
            None => (None, None, None),
        };
        let mut libraries: Vec<Option<&[u8]>> = Vec::new();
        let mut i: usize = 0;
        while i < self.known_libraries.len()
            invariant
                i <= self.known_libraries@.len(),
                libraries@.len() == i,
                forall|j: int|
                    0 <= j < i ==> pointer_view(libraries@[j]) == Some(
                        self.known_libraries@[j].name@.push(NUL),
                    ),
            decreases self.known_libraries@.len() - i,
        {
            libraries.push(Some(self.known_libraries[i].name.as_bytes_with_nul()));
            i += 1;
        }
        libraries.push(None);
        assert(pointers_view(libraries@) =~= terminated_list(library_names(self@)));
        MarshalledOptions {
            optimization_level: self.optimization.level(),
            debug_level: self.debug.level(),
            type_info_level: if self.generate_type_info_for_all {
                1
            } else {
                0
            },
            coverage_level: self.coverage.level(),
            vector_lib,
            vector_ctor,
            vector_type,
            mutable_globals: pointer_list(self.mutable_globals.as_slice()),
            userdata_types: pointer_list(self.userdata_types.as_slice()),
            libraries_with_known_members: libraries,
            disabled_builtins: pointer_list(self.disabled_builtins.as_slice()),
        }
    }
}

} // verus!
