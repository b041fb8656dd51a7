//! Everything around one call of the foreign compile entry point: the
//! options handed in, the member lookups it calls back for, and the buffer
//! it hands out.

pub mod channel;
pub mod decode;
pub mod error;
pub mod library;
pub mod marshal;
pub mod names;
pub mod order;
pub mod options;

pub use channel::LibraryChannel;
pub use decode::{
    decode, describe_failure, failure_message, inspect, try_decode, ContractViolation, ResultKind,
};
pub use error::CompileError;
pub use library::{
    Constant, ConstantWrite, LibraryWithKnownMembers, LibraryWithKnownMembersC, LuauBytecodeType,
    MemberTable,
};
pub use marshal::MarshalledOptions;
pub use names::CName;
pub use options::{CompilerOptions, CoverageLevel, DebugLevel, OptLevel, VectorOptions};
