//! Typed indices into the entities of a WebAssembly module.
use vstd::prelude::*;
verus! {

/// Index type of a function defined locally inside the WebAssembly module.
#[derive(Copy, Clone, PartialEq, Eq, Structural, Hash, PartialOrd, Ord, Debug)]
pub struct LocalFunctionIndex(pub u32);

impl LocalFunctionIndex {
    /// The position this index denotes.
    pub open spec fn pos(self) -> nat {
        self.0 as nat
    }

    /// Creates an index for position `index`, which must stay below `u32::MAX`.
    pub fn new(index: usize) -> (r: Self)
        requires
            index < u32::MAX,
        ensures
            r.pos() == index,
    {
        LocalFunctionIndex(index as u32)
    }

    /// Creates an index from its raw `u32` value.
    pub fn from_u32(x: u32) -> (r: Self)
        ensures
            r.pos() == x,
    {
        LocalFunctionIndex(x)
    }

    /// The position this index denotes.
    pub fn index(self) -> (r: usize)
        ensures
            r == self.pos(),
    {
        self.0 as usize
    }

    /// The raw `u32` value of this index.
    pub fn as_u32(self) -> (r: u32)
        ensures
            r == self.pos(),
    {
        self.0
    }
}

/// Index type of a table defined locally inside the WebAssembly module.
#[derive(Copy, Clone, PartialEq, Eq, Structural, Hash, PartialOrd, Ord, Debug)]
pub struct LocalTableIndex(pub u32);

impl LocalTableIndex {
    /// The position this index denotes.
    pub open spec fn pos(self) -> nat {
        self.0 as nat
    }

    /// Creates an index for position `index`, which must stay below `u32::MAX`.
    pub fn new(index: usize) -> (r: Self)
        requires
            index < u32::MAX,
        ensures
            r.pos() == index,
    {
        LocalTableIndex(index as u32)
    }

    /// Creates an index from its raw `u32` value.
    pub fn from_u32(x: u32) -> (r: Self)
        ensures
            r.pos() == x,
    {
        LocalTableIndex(x)
    }

    /// The position this index denotes.
    pub fn index(self) -> (r: usize)
        ensures
            r == self.pos(),
    {
        self.0 as usize
    }

    /// The raw `u32` value of this index.
    pub fn as_u32(self) -> (r: u32)
        ensures
            r == self.pos(),
    {
        self.0
    }
}

/// Index type of a memory defined locally inside the WebAssembly module.
#[derive(Copy, Clone, PartialEq, Eq, Structural, Hash, PartialOrd, Ord, Debug)]
pub struct LocalMemoryIndex(pub u32);

impl LocalMemoryIndex {
    /// The position this index denotes.
    pub open spec fn pos(self) -> nat {
        self.0 as nat
    }

    /// Creates an index for position `index`, which must stay below `u32::MAX`.
    pub fn new(index: usize) -> (r: Self)
        requires
            index < u32::MAX,
        ensures
            r.pos() == index,
    {
        LocalMemoryIndex(index as u32)
    }

    /// Creates an index from its raw `u32` value.
    pub fn from_u32(x: u32) -> (r: Self)
        ensures
            r.pos() == x,
    {
        LocalMemoryIndex(x)
    }

    /// The position this index denotes.
    pub fn index(self) -> (r: usize)
        ensures
            r == self.pos(),
    {
        self.0 as usize
    }

    /// The raw `u32` value of this index.
    pub fn as_u32(self) -> (r: u32)
        ensures
            r == self.pos(),
    {
        self.0
    }
}

/// Index type of a global defined locally inside the WebAssembly module.
#[derive(Copy, Clone, PartialEq, Eq, Structural, Hash, PartialOrd, Ord, Debug)]
pub struct LocalGlobalIndex(pub u32);

impl LocalGlobalIndex {
    /// The position this index denotes.
    pub open spec fn pos(self) -> nat {
        self.0 as nat
    }

    /// Creates an index for position `index`, which must stay below `u32::MAX`.
    pub fn new(index: usize) -> (r: Self)
        requires
            index < u32::MAX,
        ensures
            r.pos() == index,
    {
        LocalGlobalIndex(index as u32)
    }

    /// Creates an index from its raw `u32` value.
    pub fn from_u32(x: u32) -> (r: Self)
        ensures
            r.pos() == x,
    {
        LocalGlobalIndex(x)
    }

    /// The position this index denotes.
    pub fn index(self) -> (r: usize)
        ensures
            r == self.pos(),
    {
        self.0 as usize
    }

    /// The raw `u32` value of this index.
    pub fn as_u32(self) -> (r: u32)
        ensures
            r == self.pos(),
    {
        self.0
    }
}

/// Index type of a function (imported or local) inside the WebAssembly module.
#[derive(Copy, Clone, PartialEq, Eq, Structural, Hash, PartialOrd, Ord, Debug)]
pub struct FunctionIndex(pub u32);

impl FunctionIndex {
    /// The position this index denotes.
    pub open spec fn pos(self) -> nat {
        self.0 as nat
    }

    /// Creates an index for position `index`, which must stay below `u32::MAX`.
    pub fn new(index: usize) -> (r: Self)
        requires
            index < u32::MAX,
        ensures
            r.pos() == index,
    {
        FunctionIndex(index as u32)
    }

    /// Creates an index from its raw `u32` value.
    pub fn from_u32(x: u32) -> (r: Self)
        ensures
            r.pos() == x,
    {
        FunctionIndex(x)
    }

    /// The position this index denotes.
    pub fn index(self) -> (r: usize)
        ensures
            r == self.pos(),
    {
        self.0 as usize
    }

    /// The raw `u32` value of this index.
    pub fn as_u32(self) -> (r: u32)
        ensures
            r == self.pos(),
    {
        self.0
    }
}

/// Index type of a table (imported or local) inside the WebAssembly module.
#[derive(Copy, Clone, PartialEq, Eq, Structural, Hash, PartialOrd, Ord, Debug)]
pub struct TableIndex(pub u32);

impl TableIndex {
    /// The position this index denotes.
    pub open spec fn pos(self) -> nat {
        self.0 as nat
    }

    /// Creates an index for position `index`, which must stay below `u32::MAX`.
    pub fn new(index: usize) -> (r: Self)
        requires
            index < u32::MAX,
        ensures
            r.pos() == index,
    {
        TableIndex(index as u32)
    }

    /// Creates an index from its raw `u32` value.
    pub fn from_u32(x: u32) -> (r: Self)
        ensures
            r.pos() == x,
    {
        TableIndex(x)
    }

    /// The position this index denotes.
    pub fn index(self) -> (r: usize)
        ensures
            r == self.pos(),
    {
        self.0 as usize
    }

    /// The raw `u32` value of this index.
    pub fn as_u32(self) -> (r: u32)
        ensures
            r == self.pos(),
    {
        self.0
    }
}

/// Index type of a global variable (imported or local) inside the WebAssembly module.
#[derive(Copy, Clone, PartialEq, Eq, Structural, Hash, PartialOrd, Ord, Debug)]
pub struct GlobalIndex(pub u32);

impl GlobalIndex {
    /// The position this index denotes.
    pub open spec fn pos(self) -> nat {
        self.0 as nat
    }

    /// Creates an index for position `index`, which must stay below `u32::MAX`.
    pub fn new(index: usize) -> (r: Self)
        requires
            index < u32::MAX,
        ensures
            r.pos() == index,
    {
        GlobalIndex(index as u32)
    }

    /// Creates an index from its raw `u32` value.
    pub fn from_u32(x: u32) -> (r: Self)
        ensures
            r.pos() == x,
    {
        GlobalIndex(x)
    }

    /// The position this index denotes.
    pub fn index(self) -> (r: usize)
        ensures
            r == self.pos(),
    {
        self.0 as usize
    }

    /// The raw `u32` value of this index.
    pub fn as_u32(self) -> (r: u32)
        ensures
            r == self.pos(),
    {
        self.0
    }
}

/// Index type of a linear memory (imported or local) inside the WebAssembly module.
#[derive(Copy, Clone, PartialEq, Eq, Structural, Hash, PartialOrd, Ord, Debug)]
pub struct MemoryIndex(pub u32);

impl MemoryIndex {
    /// The position this index denotes.
    pub open spec fn pos(self) -> nat {
        self.0 as nat
    }

    /// Creates an index for position `index`, which must stay below `u32::MAX`.
    pub fn new(index: usize) -> (r: Self)
        requires
            index < u32::MAX,
        ensures
            r.pos() == index,
    {
        MemoryIndex(index as u32)
    }

    /// Creates an index from its raw `u32` value.
    pub fn from_u32(x: u32) -> (r: Self)
        ensures
            r.pos() == x,
    {
        MemoryIndex(x)
    }

    /// The position this index denotes.
    pub fn index(self) -> (r: usize)
        ensures
            r == self.pos(),
    {
        self.0 as usize
    }

    /// The raw `u32` value of this index.
    pub fn as_u32(self) -> (r: u32)
        ensures
            r == self.pos(),
    {
        self.0
    }
}

/// Index type of a signature (imported or local) inside the WebAssembly module.
#[derive(Copy, Clone, PartialEq, Eq, Structural, Hash, PartialOrd, Ord, Debug)]
pub struct SignatureIndex(pub u32);

impl SignatureIndex {
    /// The position this index denotes.
    pub open spec fn pos(self) -> nat {
        self.0 as nat
    }

    /// Creates an index for position `index`, which must stay below `u32::MAX`.
    pub fn new(index: usize) -> (r: Self)
        requires
            index < u32::MAX,
        ensures
            r.pos() == index,
    {
        SignatureIndex(index as u32)
    }

    /// Creates an index from its raw `u32` value.
    pub fn from_u32(x: u32) -> (r: Self)
        ensures
            r.pos() == x,
    {
        SignatureIndex(x)
    }

    /// The position this index denotes.
    pub fn index(self) -> (r: usize)
        ensures
            r == self.pos(),
    {
        self.0 as usize
    }

    /// The raw `u32` value of this index.
    pub fn as_u32(self) -> (r: u32)
        ensures
            r == self.pos(),
    {
        self.0
    }
}

/// Index type of a passive data segment inside the WebAssembly module.
#[derive(Copy, Clone, PartialEq, Eq, Structural, Hash, PartialOrd, Ord, Debug)]
pub struct DataIndex(pub u32);

impl DataIndex {
    /// The position this index denotes.
    pub open spec fn pos(self) -> nat {
        self.0 as nat
    }

    /// Creates an index for position `index`, which must stay below `u32::MAX`.
    pub fn new(index: usize) -> (r: Self)
        requires
            index < u32::MAX,
        ensures
            r.pos() == index,
    {
        DataIndex(index as u32)
    }

    /// Creates an index from its raw `u32` value.
    pub fn from_u32(x: u32) -> (r: Self)
        ensures
            r.pos() == x,
    {
        DataIndex(x)
    }

    /// The position this index denotes.
    pub fn index(self) -> (r: usize)
        ensures
            r == self.pos(),
    {
        self.0 as usize
    }

    /// The raw `u32` value of this index.
    pub fn as_u32(self) -> (r: u32)
        ensures
            r == self.pos(),
    {
        self.0
    }
}

/// Index type of a passive element segment inside the WebAssembly module.
#[derive(Copy, Clone, PartialEq, Eq, Structural, Hash, PartialOrd, Ord, Debug)]
pub struct ElemIndex(pub u32);

impl ElemIndex {
    /// The position this index denotes.
    pub open spec fn pos(self) -> nat {
        self.0 as nat
    }

    /// Creates an index for position `index`, which must stay below `u32::MAX`.
    pub fn new(index: usize) -> (r: Self)
        requires
            index < u32::MAX,
        ensures
            r.pos() == index,
    {
        ElemIndex(index as u32)
    }

    /// Creates an index from its raw `u32` value.
    pub fn from_u32(x: u32) -> (r: Self)
        ensures
            r.pos() == x,
    {
        ElemIndex(x)
    }

    /// The position this index denotes.
    pub fn index(self) -> (r: usize)
        ensures
            r == self.pos(),
    {
        self.0 as usize
    }

    /// The raw `u32` value of this index.
    pub fn as_u32(self) -> (r: u32)
        ensures
            r == self.pos(),
    {
        self.0
    }
}

/// Index type of a custom section inside a WebAssembly module.
#[derive(Copy, Clone, PartialEq, Eq, Structural, Hash, PartialOrd, Ord, Debug)]
pub struct CustomSectionIndex(pub u32);

impl CustomSectionIndex {
    /// The position this index denotes.
    pub open spec fn pos(self) -> nat {
        self.0 as nat
    }

    /// Creates an index for position `index`, which must stay below `u32::MAX`.
    pub fn new(index: usize) -> (r: Self)
        requires
            index < u32::MAX,
        ensures
            r.pos() == index,
    {
        CustomSectionIndex(index as u32)
    }

    /// Creates an index from its raw `u32` value.
    pub fn from_u32(x: u32) -> (r: Self)
        ensures
            r.pos() == x,
    {
        CustomSectionIndex(x)
    }

    /// The position this index denotes.
    pub fn index(self) -> (r: usize)
        ensures
            r == self.pos(),
    {
        self.0 as usize
    }

    /// The raw `u32` value of this index.
    pub fn as_u32(self) -> (r: u32)
        ensures
            r == self.pos(),
    {
        self.0
    }
}

/// An entity to export.
#[derive(Copy, Clone, Debug, Hash, PartialEq, Eq, Structural, PartialOrd, Ord)]
pub enum ExportIndex {
    /// Function export.
    Function(FunctionIndex),
    /// Table export.
    Table(TableIndex),
    /// Memory export.
    Memory(MemoryIndex),
    /// Global export.
    Global(GlobalIndex),
}

/// An entity to import.
#[derive(Copy, Clone, Debug, Hash, PartialEq, Eq, Structural, PartialOrd, Ord)]
pub enum ImportIndex {
    /// Function import.
    Function(FunctionIndex),
    /// Table import.
    Table(TableIndex),
    /// Memory import.
    Memory(MemoryIndex),
    /// Global import.
    Global(GlobalIndex),
}

} // verus!
