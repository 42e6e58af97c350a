//! The ways instantiation and the runtime entry points can fail.
use vstd::prelude::*;

use crate::indexes::FunctionIndex;
use crate::reloc::{LibCall, RelocKind};

verus! {

/// Why an instance could not be built, or a runtime operation refused.
#[derive(Clone, Debug)]
pub enum ErrorKind {
    /// An imported function that the import object does not provide.
    MissingImport { module: String, field: String },
    /// A call target that names no imported or local function.
    UnresolvedFunction(FunctionIndex),
    /// The backend rejected the body of a function.
    CompileError { function_index: usize, message: String },
    /// A relocation to something other than a function, a runtime entry
    /// point or a library call, reported while compiling.
    UnsupportedRelocTarget { function_index: usize, offset: u32 },
    /// A relocation whose patch encoding is not supported.
    UnsupportedRelocKind(RelocKind),
    /// A relocation to a runtime library call that has no entry point.
    UnsupportedLibCall(LibCall),
    /// A relocation whose patch would reach past the end of its code buffer.
    RelocationOutOfBounds { function_index: usize, offset: u32 },
    /// A relocation whose value does not fit its patch width.
    RelocationOverflow { function_index: usize, offset: u32 },
    /// A global whose initializer is not a constant.
    UnsupportedGlobalInit { global_index: usize },
    /// An element segment whose offset comes from a global.
    UnsupportedElementBase { segment: usize },
    /// An element segment for a missing table, or one that reaches past its end.
    TableInitOutOfBounds { segment: usize },
    /// A data segment whose offset comes from a global.
    UnsupportedDataBase { segment: usize },
    /// A data segment for a missing memory, or one that reaches past its end.
    DataInitOutOfBounds { segment: usize },
    /// A memory whose initial size exceeds what it may hold.
    InvalidMemoryLimits { memory_index: usize },
    /// A memory index other than the default one where only that is supported.
    UnsupportedMemoryIndex(u32),
    /// A memory index with no memory behind it.
    NoMemory(usize),
    /// Mutation asked for while another handle shares the memories.
    MemoryShared,
}

} // verus!
