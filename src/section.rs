//! Custom sections that a compiler emits beside the code of a module.
use vstd::prelude::*;

verus! {

/// Index type of a section defined inside a compilation.
#[derive(Copy, Clone, PartialEq, Eq, Structural, Hash, PartialOrd, Ord, Debug)]
pub struct SectionIndex(pub u32);

impl SectionIndex {
    /// The position this index denotes.
    pub open spec fn pos(self) -> nat {
        self.0 as nat
    }

    /// Creates an index for position `index`, which must stay below `u32::MAX`.
    pub fn new(index: usize) -> (r: Self)
        requires
            index < u32::MAX,
        ensures
            r.pos() == index,
    {
        SectionIndex(index as u32)
    }

    /// The position this index denotes.
    pub fn index(self) -> (r: usize)
        ensures
            r == self.pos(),
    {
        self.0 as usize
    }
}

/// How a custom section may be used: only reading is supported.
#[derive(Copy, Clone, PartialEq, Eq, Structural, Debug)]
pub enum CustomSectionProtection {
    /// A custom section with read permissions.
    Read,
}

/// A section of arbitrary bytes stored beside the emitted code.
#[derive(Clone, Debug)]
pub struct CustomSection {
    /// The protection.
    pub protection: CustomSectionProtection,
    /// The bytes of this section.
    pub bytes: Vec<u8>,
}

} // verus!
