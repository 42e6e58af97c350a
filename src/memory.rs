//! Page-granular linear memories that only grow.
use vstd::prelude::*;

use crate::bytes::overwritten;

verus! {

/// The size of one WebAssembly page in bytes.
pub const WASM_PAGE_SIZE: usize = 65536;

/// The most pages a linear memory can hold (4 GiB).
pub const WASM_MAX_PAGES: u32 = 65536;

/// The most pages a memory declared with `maximum` may hold on this machine:
/// its declared maximum, capped by the WebAssembly limit and by what an
/// address of this machine can reach.
pub open spec fn page_limit(maximum: Option<u32>) -> nat {
    let machine = vstd::math::min(WASM_MAX_PAGES as int, usize::MAX as int / WASM_PAGE_SIZE as int);
    match maximum {
        Some(m) => vstd::math::min(m as int, machine) as nat,
        None => machine as nat,
    }
}

/// `n` zero bytes.
pub open spec fn zeros(n: nat) -> Seq<u8> {
    Seq::new(n, |i: int| 0u8)
}

fn page_limit_exec(maximum: Option<u32>) -> (r: u64)
    ensures
        r == page_limit(maximum),
{
    let machine: u64 = if (usize::MAX / WASM_PAGE_SIZE) < WASM_MAX_PAGES as usize {
        (usize::MAX / WASM_PAGE_SIZE) as u64
    } else {
        WASM_MAX_PAGES as u64
    };
    match maximum {
        Some(m) => if (m as u64) < machine {
            m as u64
        } else {
            machine
        },
        None => machine,
    }
}

/// A sandboxed linear memory: a zero-initialised byte buffer of whole pages.
///
/// Every successful growth may move the buffer; `generation` tells the
/// buffers apart, so that views taken before a growth can be recognised as
/// stale.
#[derive(Debug)]
pub struct LinearMemory {
    data: Vec<u8>,
    current: u32,
    maximum: Option<u32>,
    generation: u64,
}

impl LinearMemory {
    /// The bytes of the memory.
    pub closed spec fn bytes(&self) -> Seq<u8> {
        self.data@
    }

    /// The number of pages currently allocated.
    pub closed spec fn pages(&self) -> nat {
        self.current as nat
    }

    /// The declared maximum number of pages, if any.
    pub closed spec fn maximum_pages(&self) -> Option<u32> {
        self.maximum
    }

    /// Which allocation currently backs the memory.
    pub closed spec fn generation(&self) -> u64 {
        self.generation
    }

    /// The buffer holds exactly the allocated pages, and no more pages than
    /// the memory may hold.
    pub open spec fn wf(&self) -> bool {
        &&& self.bytes().len() == self.pages() * WASM_PAGE_SIZE
        &&& self.pages() <= page_limit(self.maximum_pages())
    }

    /// Allocates a zero-filled memory of `initial_pages` pages; `None` when
    /// more pages are asked for than the memory may hold.
    pub fn new(initial_pages: u32, maximum_pages: Option<u32>) -> (r: Option<LinearMemory>)
        ensures
            r is None <==> initial_pages > page_limit(maximum_pages),
            r matches Some(m) ==> {
                &&& m.wf()
                &&& m.pages() == initial_pages
                &&& m.maximum_pages() == maximum_pages
                &&& m.bytes() == zeros(m.pages() * WASM_PAGE_SIZE as nat)
            },
    {
        let limit = page_limit_exec(maximum_pages);
        if initial_pages as u64 > limit {
            return None;
        }
        let len: usize = initial_pages as usize * WASM_PAGE_SIZE;
        let data: Vec<u8> = vec![0u8; len];
        let m = LinearMemory { data, current: initial_pages, maximum: maximum_pages, generation: 0 };
        assert(m.bytes() =~= zeros(m.pages() * WASM_PAGE_SIZE as nat));
        Some(m)
    }

    /// Grows the memory by `additional_pages` zeroed pages and returns the page
    /// count before the growth. Where the memory may not hold that many
    /// pages, it is left unchanged and `None` is returned.
    pub fn grow(&mut self, additional_pages: u32) -> (r: Option<u32>)
        requires
            old(self).wf(),
        ensures
            final(self).wf(),
            r is None <==> old(self).pages() + additional_pages > page_limit(
                old(self).maximum_pages(),
            ),
            r is None ==> *final(self) == *old(self),
            r matches Some(p) ==> {
                &&& p == old(self).pages()
                &&& final(self).pages() == old(self).pages() + additional_pages
                &&& final(self).bytes() == old(self).bytes() + zeros(
                    (additional_pages * WASM_PAGE_SIZE) as nat,
                )
                &&& final(self).maximum_pages() == old(self).maximum_pages()
                &&& final(self).generation() != old(self).generation()
            },
    {
        let limit = page_limit_exec(self.maximum);
        let previous = self.current;
        if previous as u64 + additional_pages as u64 > limit {
            return None;
        }
        let new_pages: u32 = (previous as u64 + additional_pages as u64) as u32;
        let new_len: usize = new_pages as usize * WASM_PAGE_SIZE;
        let ghost before = self.data@;
        self.data.resize(new_len, 0u8);
        self.current = new_pages;
        self.generation = self.generation.wrapping_add(1);
        assert(self.data@ =~= before + zeros((additional_pages * WASM_PAGE_SIZE) as nat));
        Some(previous)
    }

    /// The number of pages currently allocated.
    pub fn current_size(&self) -> (r: u32)
        ensures
            r == self.pages(),
    {
        self.current
    }

    /// The declared maximum number of pages, if any.
    pub fn maximum(&self) -> (r: Option<u32>)
        ensures
            r == self.maximum_pages(),
    {
        self.maximum
    }

    /// Which allocation currently backs the memory.
    pub fn buffer_generation(&self) -> (r: u64)
        ensures
            r == self.generation(),
    {
        self.generation
    }

    /// The length of the buffer in bytes.
    pub fn byte_len(&self) -> (r: usize)
        ensures
            r == self.bytes().len(),
    {
        self.data.len()
    }

    /// The contents of the memory.
    pub fn as_slice(&self) -> (r: &[u8])
        ensures
            r@ == self.bytes(),
    {
        self.data.as_slice()
    }

    /// Copies `src` into the memory from `offset` on; `false`, with the memory
    /// unchanged, where `src` would reach past its end.
    pub fn write_bytes(&mut self, offset: usize, src: &[u8]) -> (r: bool)
        requires
            old(self).wf(),
        ensures
            final(self).wf(),
            r <==> offset + src@.len() <= old(self).bytes().len(),
            final(self).pages() == old(self).pages(),
            final(self).maximum_pages() == old(self).maximum_pages(),
            final(self).generation() == old(self).generation(),
            r ==> final(self).bytes() == overwritten(old(self).bytes(), offset as int, src@),
            !r ==> final(self).bytes() == old(self).bytes(),
    {
        let n = self.data.len();
        if offset > n || src.len() > n - offset {
            return false;
        }
        let ghost before = self.data@;
        let mut k: usize = 0;
        while k < src.len()
            invariant
                k <= src@.len(),
                offset + src@.len() <= n,
                n == before.len(),
                self.data@.len() == n,
                self.current == old(self).current,
                self.maximum == old(self).maximum,
                self.generation == old(self).generation,
                before == old(self).data@,
                forall|i: int|
                    0 <= i < n ==> self.data@[i] == if offset <= i < offset + k {
                        src@[i - offset]
                    } else {
                        before[i]
                    },
            decreases src@.len() - k,
        {
            self.data.set(offset + k, src[k]);
            k = k + 1;
        }
        assert(self.data@ =~= overwritten(before, offset as int, src@));
        true
    }

    /// A copy of the `len` bytes from `address` on; `None` where they reach
    /// past the end of the memory.
    pub fn read_bytes(&self, address: usize, len: usize) -> (r: Option<Vec<u8>>)
        ensures
            r is Some <==> address + len <= self.bytes().len(),
            r matches Some(v) ==> v@ == self.bytes().subrange(address as int, address + len),
    {
        let n = self.data.len();
        if address > n || len > n - address {
            return None;
        }
        let mut out: Vec<u8> = Vec::with_capacity(len);
        let mut k: usize = 0;
        while k < len
            invariant
                address + len <= n,
                n == self.data@.len(),
                k <= len,
                out@ == self.data@.subrange(address as int, address + k),
            decreases len - k,
        {
            out.push(self.data[address + k]);
            k = k + 1;
            assert(out@ =~= self.data@.subrange(address as int, address + k));
        }
        Some(out)
    }
}

} // verus!
