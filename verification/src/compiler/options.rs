//! The configuration of one compile call.

use crate::compiler::library::{member_key, LibraryWithKnownMembers, LibraryWithKnownMembersC};
use crate::compiler::names::{contains_nul, CName};
use vstd::prelude::*;
use vstd::string::StringSliceAdditionalSpecFns;

verus! {

/// How hard the compiler optimizes.
#[derive(Debug, Clone, Copy, PartialEq, Eq, Structural)]
pub enum OptLevel {
    /// No optimization.
    NoOptimization,
    /// Optimizations that leave the code debuggable.
    Baseline,
    /// Optimizations that harm debuggability as well, such as inlining.
    Max,
}

impl OptLevel {
    /// The number that the foreign compiler knows this level by.
    pub open spec fn spec_level(self) -> i32 {
        match self {
            OptLevel::NoOptimization => 0,
            OptLevel::Baseline => 1,
            OptLevel::Max => 2,
        }
    }

    /// The number that the foreign compiler knows this level by.
    #[verifier::when_used_as_spec(spec_level)]
    pub fn level(self) -> (level: i32)
        ensures
            level == self.spec_level(),
    {
        match self {
            OptLevel::NoOptimization => 0,
            OptLevel::Baseline => 1,
            OptLevel::Max => 2,
        }
    }
}

impl Default for OptLevel {
    fn default() -> (level: Self)
        ensures
            level == OptLevel::Baseline,
    {
        OptLevel::Baseline
    }
}

/// How much debug information the bytecode carries.
#[derive(Debug, Clone, Copy, PartialEq, Eq, Structural)]
pub enum DebugLevel {
    /// No debugging support.
    NoDebug,
    /// Line info and function names only: enough for backtraces.
    Backtrace,
    /// Names of locals and upvalues as well: what a debugger needs.
    Full,
}

impl DebugLevel {
    /// The number that the foreign compiler knows this level by.
    pub open spec fn spec_level(self) -> i32 {
        match self {
            DebugLevel::NoDebug => 0,
            DebugLevel::Backtrace => 1,
            DebugLevel::Full => 2,
        }
    }

    /// The number that the foreign compiler knows this level by.
    #[verifier::when_used_as_spec(spec_level)]
    pub fn level(self) -> (level: i32)
        ensures
            level == self.spec_level(),
    {
        match self {
            DebugLevel::NoDebug => 0,
            DebugLevel::Backtrace => 1,
            DebugLevel::Full => 2,
        }
    }
}

impl Default for DebugLevel {
    fn default() -> (level: Self)
        ensures
            level == DebugLevel::Backtrace,
    {
        DebugLevel::Backtrace
    }
}

/// How much code coverage the bytecode records.
#[derive(Debug, Clone, Copy, PartialEq, Eq, Structural)]
pub enum CoverageLevel {
    /// No code coverage support.
    NoCoverage,
    /// Statement coverage.
    Statement,
    /// Statement and expression coverage.
    StatementExpression,
}

impl CoverageLevel {
    /// The number that the foreign compiler knows this level by.
    pub open spec fn spec_level(self) -> i32 {
        match self {
            CoverageLevel::NoCoverage => 0,
            CoverageLevel::Statement => 1,
            CoverageLevel::StatementExpression => 2,
        }
    }

    /// The number that the foreign compiler knows this level by.
    #[verifier::when_used_as_spec(spec_level)]
    pub fn level(self) -> (level: i32)
        ensures
            level == self.spec_level(),
    {
        match self {
            CoverageLevel::NoCoverage => 0,
            CoverageLevel::Statement => 1,
            CoverageLevel::StatementExpression => 2,
        }
    }
}

impl Default for CoverageLevel {
    fn default() -> (level: Self)
        ensures
            level == CoverageLevel::NoCoverage,
    {
        CoverageLevel::NoCoverage
    }
}

/// An alternate vector type: the library that holds its constructor, the
/// constructor, and the name of the type. The three come together or not at
/// all.
#[derive(Debug, Clone, PartialEq)]
pub struct VectorOptions {
    pub library_name: CName,
    pub constructor: CName,
    pub vector_type_name: CName,
}

/// The names in a list, each without its terminator.
pub open spec fn names_of(list: Seq<CName>) -> Seq<Seq<u8>> {
    Seq::new(list.len(), |i: int| list[i]@)
}

/// The UTF-8 bytes of each text in a list.
pub open spec fn bytes_of(texts: Seq<&str>) -> Seq<Seq<u8>> {
    Seq::new(texts.len(), |i: int| texts[i].spec_bytes())
}

/// None of the texts holds a zero byte.
pub open spec fn all_free_of_nul(texts: Seq<&str>) -> bool {
    forall|i: int| 0 <= i < texts.len() ==> !contains_nul(#[trigger] texts[i].spec_bytes())
}

/// Whether none of the texts holds a zero byte, so that all of them can be
/// names.
pub fn are_names(texts: &[&str]) -> (valid: bool)
    ensures
        valid == all_free_of_nul(texts@),
{
    let mut i: usize = 0;
    while i < texts.len()
        invariant
            i <= texts@.len(),
            forall|j: int| 0 <= j < i ==> !contains_nul(#[trigger] texts@[j].spec_bytes()),
        decreases texts@.len() - i,
    {
        if crate::compiler::names::has_nul(texts[i]) {
            return false;
        }
        i += 1;
    }
    true
}

/// Terminates each text of the list, in the order given.
fn terminate_all(texts: &[&str]) -> (list: Vec<CName>)
    requires
        all_free_of_nul(texts@),
    ensures
        names_of(list@) == bytes_of(texts@),
{
    let mut list: Vec<CName> = Vec::new();
    let mut i: usize = 0;
    while i < texts.len()
        invariant
            all_free_of_nul(texts@),
            i <= texts@.len(),
            list@.len() == i,
            forall|j: int| 0 <= j < i ==> list@[j]@ == texts@[j].spec_bytes(),
        decreases texts@.len() - i,
    {
        assert(!contains_nul(texts@[i as int].spec_bytes()));
        let name = CName::new(texts[i]);
        list.push(name.unwrap());
        i += 1;
    }
    assert(names_of(list@) =~= bytes_of(texts@));
    list
}

/// What a configuration holds, as plain values: the scalar settings, and
/// every name as its bytes without terminator.
pub struct OptionsView {
    pub optimization: OptLevel,
    pub debug: DebugLevel,
    pub generate_type_info_for_all: bool,
    pub coverage: CoverageLevel,
    pub alt_vector: Option<(Seq<u8>, Seq<u8>, Seq<u8>)>,
    pub mutable_globals: Seq<Seq<u8>>,
    pub userdata_types: Seq<Seq<u8>>,
    pub known_libraries: Seq<LibraryWithKnownMembersC>,
    pub disabled_builtins: Seq<Seq<u8>>,
}

/// The configuration of a compile call.
#[derive(Debug, Clone, PartialEq)]
pub struct CompilerOptions {
    pub optimization: OptLevel,
    pub debug: DebugLevel,
    /// Type information guides native code generation. When set, it is
    /// generated for all functions, not only for those marked native.
    pub generate_type_info_for_all: bool,
    pub coverage: CoverageLevel,
    /// The alternate vector type, if there is one.
    pub alt_vector: Option<VectorOptions>,
    pub mutable_globals: Vec<CName>,
    pub userdata_types: Vec<CName>,
    pub known_libraries: Vec<LibraryWithKnownMembersC>,
    pub disabled_builtins: Vec<CName>,
}

impl View for CompilerOptions {
    type V = OptionsView;

    open spec fn view(&self) -> OptionsView {
        OptionsView {
            optimization: self.optimization,
            debug: self.debug,
            generate_type_info_for_all: self.generate_type_info_for_all,
            coverage: self.coverage,
            alt_vector: match self.alt_vector {
                Some(vector) => Some(
                    (vector.library_name@, vector.constructor@, vector.vector_type_name@),
                ),
                None => None,
            },
            mutable_globals: names_of(self.mutable_globals@),
            userdata_types: names_of(self.userdata_types@),
            known_libraries: self.known_libraries@,
            disabled_builtins: names_of(self.disabled_builtins@),
        }
    }
}

impl CompilerOptions {
    /// The configuration that a host starts from: baseline optimization,
    /// debug information for backtraces, no coverage, no type information
    /// for all functions, no alternate vector type, and no names at all.
    pub fn new() -> (options: Self)
        ensures
            options@ == (OptionsView {
                optimization: OptLevel::Baseline,
                debug: DebugLevel::Backtrace,
                generate_type_info_for_all: false,
                coverage: CoverageLevel::NoCoverage,
                alt_vector: None,
                mutable_globals: Seq::empty(),
                userdata_types: Seq::empty(),
                known_libraries: Seq::empty(),
                disabled_builtins: Seq::empty(),
            }),
    {
        let options = CompilerOptions {
            optimization: OptLevel::default(),
            debug: DebugLevel::default(),
            generate_type_info_for_all: false,
            coverage: CoverageLevel::default(),
            alt_vector: None,
            mutable_globals: Vec::new(),
            userdata_types: Vec::new(),
            known_libraries: Vec::new(),
            disabled_builtins: Vec::new(),
        };
        assert(names_of(options.mutable_globals@) =~= Seq::empty());
        assert(names_of(options.userdata_types@) =~= Seq::empty());
        assert(names_of(options.disabled_builtins@) =~= Seq::empty());
        assert(options.known_libraries@ =~= Seq::empty());
        options
    }

    /// Sets the alternate vector type. None of the three names may hold a
    /// zero byte.
    pub fn set_alt_vector(
        &mut self,
        vector_lib: &str,
        vector_constructor: &str,
        vector_type: &str,
    ) -> (this: &mut Self)
        requires
            !contains_nul(vector_lib.spec_bytes()),
            !contains_nul(vector_constructor.spec_bytes()),
            !contains_nul(vector_type.spec_bytes()),
        ensures
            *final(self) == *final(this),
            this@ == (OptionsView {
                alt_vector: Some(
                    (
                        vector_lib.spec_bytes(),
                        vector_constructor.spec_bytes(),
                        vector_type.spec_bytes(),
                    ),
                ),
                ..old(self)@
            }),
    {
        let library_name = CName::new(vector_lib);
        let constructor = CName::new(vector_constructor);
        let type_cname = CName::new(vector_type);
        self.alt_vector = Some(
            VectorOptions {
                library_name: library_name.unwrap(),
                constructor: constructor.unwrap(),
                vector_type_name: type_cname.unwrap(),
            },
        );
        self
    }

    /// Replaces the list of globals that scripts may assign to. None of the
    /// names may hold a zero byte.
    pub fn set_mutable_globals(&mut self, globals: &[&str]) -> (this: &mut Self)
        requires
            all_free_of_nul(globals@),
        ensures
            *final(self) == *final(this),
            this@ == (OptionsView { mutable_globals: bytes_of(globals@), ..old(self)@ }),
    {
        self.mutable_globals = terminate_all(globals);
        self
    }

    /// Replaces the list of userdata type names. None of the names may hold
    /// a zero byte.
    pub fn set_userdata_types(&mut self, userdata_types: &[&str]) -> (this: &mut Self)
        requires
            all_free_of_nul(userdata_types@),
        ensures
            *final(self) == *final(this),
            this@ == (OptionsView { userdata_types: bytes_of(userdata_types@), ..old(self)@ }),
    {
        self.userdata_types = terminate_all(userdata_types);
        self
    }

    /// Replaces the list of builtins that are switched off. None of the
    /// names may hold a zero byte.
    pub fn set_disabled_builtins(&mut self, builtins: &[&str]) -> (this: &mut Self)
        requires
            all_free_of_nul(builtins@),
        ensures
            *final(self) == *final(this),
            this@ == (OptionsView { disabled_builtins: bytes_of(builtins@), ..old(self)@ }),
    {
        self.disabled_builtins = terminate_all(builtins);
        self
    }

    /// Appends a library descriptor. Its name may not hold a zero byte.
    pub fn add_known_library(&mut self, library: LibraryWithKnownMembers) -> (this: &mut Self)
        requires
            !contains_nul(member_key(library.name@)),
        ensures
            *final(self) == *final(this),
            this@.known_libraries.len() > 0,
            this@.known_libraries.last().is_from(library),
            this@ == (OptionsView {
                known_libraries: old(self)@.known_libraries.push(this@.known_libraries.last()),
                ..old(self)@
            }),
    {
        self.known_libraries.push(LibraryWithKnownMembersC::from(library));
        self
    }
}

impl Default for CompilerOptions {
    fn default() -> (options: Self)
        ensures
            options@ == (OptionsView {
                optimization: OptLevel::Baseline,
                debug: DebugLevel::Backtrace,
                generate_type_info_for_all: false,
                coverage: CoverageLevel::NoCoverage,
                alt_vector: None,
                mutable_globals: Seq::empty(),
                userdata_types: Seq::empty(),
                known_libraries: Seq::empty(),
                disabled_builtins: Seq::empty(),
            }),
    {
        CompilerOptions::new()
    }
}

} // verus!
