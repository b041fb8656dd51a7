//! Host-side logic for embedding the Luau compiler and virtual machine:
//! allocator accounting, the allocator callback bridge, compiler option
//! marshalling, library member lookup, and decoding of compile results.

pub mod allocator;
pub mod compiler;
pub mod state;
