//! Construction of the tables, memories and globals of a new instance.
use vstd::prelude::*;

use crate::bytes::{lemma_read_le_bytes, le_byte, overwritten, read_u64_le};
use crate::errors::ErrorKind;
use crate::indexes::{FunctionIndex, GlobalIndex};
use crate::memory::{page_limit, zeros, LinearMemory, WASM_PAGE_SIZE};
use crate::reloc::{addresses, function_address, get_function_addr, CodeBuffer};

verus! {

/// An element segment: function addresses to place into a table.
#[derive(Clone, Debug)]
pub struct TableElements {
    pub table_index: usize,
    /// A global holding the offset; only `None` is supported.
    pub base: Option<GlobalIndex>,
    pub offset: usize,
    pub elements: Vec<FunctionIndex>,
}

/// The declared size of a linear memory.
#[derive(Copy, Clone, PartialEq, Eq, Structural, Debug)]
pub struct MemoryDesc {
    pub pages_count: u32,
    pub maximum: Option<u32>,
}

/// A data segment: bytes to place into a linear memory.
#[derive(Clone, Debug)]
pub struct DataInitializer {
    pub memory_index: usize,
    /// A global holding the offset; only `None` is supported.
    pub base: Option<GlobalIndex>,
    pub offset: usize,
    pub data: Vec<u8>,
}

/// The constant a global starts with.
#[derive(Copy, Clone, PartialEq, Eq, Structural, Debug)]
pub enum GlobalInit {
    I32Const(i32),
    I64Const(i64),
    /// An `f32` constant, as its IEEE 754 bits.
    F32Const(u32),
    /// An `f64` constant, as its IEEE 754 bits.
    F64Const(u64),
    /// The value of another global: not supported.
    GetGlobal(GlobalIndex),
    /// A value supplied by the host: not supported.
    Import,
}

/// The contents of the given tables.
pub open spec fn tables_view(ts: Seq<Vec<u64>>) -> Seq<Seq<u64>> {
    Seq::new(ts.len(), |i: int| ts[i]@)
}

/// The addresses of the functions `es`, or the first that does not resolve.
pub open spec fn element_addresses(es: Seq<FunctionIndex>, imports: Seq<u64>, locals: Seq<u64>) -> Result<
    Seq<u64>,
    ErrorKind,
>
    decreases es.len(),
{
    if es.len() == 0 {
        Ok(Seq::empty())
    } else {
        match element_addresses(es.drop_last(), imports, locals) {
            Err(e) => Err(e),
            Ok(a) => match function_address(imports, locals, es.last().pos()) {
                Some(x) => Ok(a.push(x)),
                None => Err(ErrorKind::UnresolvedFunction(es.last())),
            },
        }
    }
}

/// Tables of the given sizes, zero-filled.
pub open spec fn empty_tables(sizes: Seq<usize>) -> Seq<Seq<u64>> {
    Seq::new(sizes.len(), |i: int| Seq::new(sizes[i] as nat, |j: int| 0u64))
}

/// The tables after the element segments `segs` are written in order; the
/// first segment that cannot be written stops construction.
pub open spec fn tables_after(
    sizes: Seq<usize>,
    segs: Seq<TableElements>,
    imports: Seq<u64>,
    locals: Seq<u64>,
) -> Result<Seq<Seq<u64>>, ErrorKind>
    decreases segs.len(),
{
    if segs.len() == 0 {
        Ok(empty_tables(sizes))
    } else {
        match tables_after(sizes, segs.drop_last(), imports, locals) {
            Err(e) => Err(e),
            Ok(ts) => {
                let seg = segs.last();
                let k = (segs.len() - 1) as usize;
                if seg.base is Some {
                    Err(ErrorKind::UnsupportedElementBase { segment: k })
                } else if seg.table_index >= ts.len() || seg.offset + seg.elements@.len()
                    > ts[seg.table_index as int].len() {
                    Err(ErrorKind::TableInitOutOfBounds { segment: k })
                } else {
                    match element_addresses(seg.elements@, imports, locals) {
                        Err(e) => Err(e),
                        Ok(a) => Ok(
                            ts.update(
                                seg.table_index as int,
                                overwritten(ts[seg.table_index as int], seg.offset as int, a),
                            ),
                        ),
                    }
                }
            },
        }
    }
}

/// Writing element segments never changes the number or the lengths of the
/// tables.
pub proof fn lemma_tables_after_shape(
    sizes: Seq<usize>,
    segs: Seq<TableElements>,
    imports: Seq<u64>,
    locals: Seq<u64>,
)
    ensures
        tables_after(sizes, segs, imports, locals) matches Ok(ts) ==> ts.len() == sizes.len()
            && forall|i: int| 0 <= i < sizes.len() ==> #[trigger] ts[i].len() == sizes[i],
    decreases segs.len(),
{
    if segs.len() > 0 {
        lemma_tables_after_shape(sizes, segs.drop_last(), imports, locals);
    }
}

/// Copies `src` into `dst` from `off` on.
fn copy_into<T: Copy>(dst: &mut Vec<T>, off: usize, src: &Vec<T>)
    requires
        off + src@.len() <= old(dst)@.len(),
    ensures
        final(dst)@ == overwritten(old(dst)@, off as int, src@),
{
    let ghost before = dst@;
    let n = dst.len();
    let mut k: usize = 0;
    while k < src.len()
        invariant
            n == before.len(),
            k <= src@.len(),
            off + src@.len() <= before.len(),
            dst@.len() == before.len(),
            forall|i: int|
                0 <= i < before.len() ==> dst@[i] == if off <= i < off + k {
                    src@[i - off]
                } else {
                    before[i]
                },
        decreases src@.len() - k,
    {
        dst.set(off + k, src[k]);
        k = k + 1;
    }
    assert(dst@ =~= overwritten(before, off as int, src@));
}

/// The addresses of the functions `es`, or the first that does not resolve.
fn resolve_elements(es: &Vec<FunctionIndex>, imports: &Vec<u64>, functions: &Vec<CodeBuffer>) -> (r:
    Result<Vec<u64>, ErrorKind>)
    ensures
        match element_addresses(es@, imports@, addresses(functions@)) {
            Ok(a) => r matches Ok(v) && v@ == a,
            Err(e) => r == Err::<Vec<u64>, ErrorKind>(e),
        },
        r matches Ok(v) ==> v@.len() == es@.len(),
{
    let mut out: Vec<u64> = Vec::new();
    let mut i: usize = 0;
    while i < es.len()
        invariant
            i <= es@.len(),
            out@.len() == i,
            element_addresses(es@.subrange(0, i as int), imports@, addresses(functions@)) == Ok::<
                Seq<u64>,
                ErrorKind,
            >(out@),
        decreases es@.len() - i,
    {
        let ghost p = es@.subrange(0, i as int + 1);
        assert(p.drop_last() =~= es@.subrange(0, i as int));
        match get_function_addr(es[i], imports, functions) {
            Some(a) => out.push(a),
            None => {
                proof {
                    lemma_element_addresses_err(es@, i as int + 1, imports@, addresses(functions@));
                }
                return Err(ErrorKind::UnresolvedFunction(es[i]));
            },
        }
        i = i + 1;
    }
    assert(es@.subrange(0, i as int) =~= es@);
    Ok(out)
}

proof fn lemma_element_addresses_err(es: Seq<FunctionIndex>, k: int, imports: Seq<u64>, locals: Seq<u64>)
    requires
        0 <= k <= es.len(),
        element_addresses(es.subrange(0, k), imports, locals) is Err,
    ensures
        element_addresses(es, imports, locals) == element_addresses(es.subrange(0, k), imports, locals),
    decreases es.len() - k,
{
    if k < es.len() {
        assert(es.subrange(0, k + 1).drop_last() =~= es.subrange(0, k));
        lemma_element_addresses_err(es, k + 1, imports, locals);
    } else {
        assert(es.subrange(0, k) =~= es);
    }
}

proof fn lemma_tables_after_err(
    sizes: Seq<usize>,
    segs: Seq<TableElements>,
    k: int,
    imports: Seq<u64>,
    locals: Seq<u64>,
)
    requires
        0 <= k <= segs.len(),
        tables_after(sizes, segs.subrange(0, k), imports, locals) is Err,
    ensures
        tables_after(sizes, segs, imports, locals) == tables_after(sizes, segs.subrange(0, k), imports, locals),
    decreases segs.len() - k,
{
    if k < segs.len() {
        assert(segs.subrange(0, k + 1).drop_last() =~= segs.subrange(0, k));
        lemma_tables_after_err(sizes, segs, k + 1, imports, locals);
    } else {
        assert(segs.subrange(0, k) =~= segs);
    }
}

/// Builds zero-filled tables of the declared sizes and writes the element
/// segments into them in order.
pub fn build_tables(
    sizes: &Vec<usize>,
    segments: &Vec<TableElements>,
    imports: &Vec<u64>,
    functions: &Vec<CodeBuffer>,
) -> (r: Result<Vec<Vec<u64>>, ErrorKind>)
    ensures
        match tables_after(sizes@, segments@, imports@, addresses(functions@)) {
            Ok(ts) => r matches Ok(v) && tables_view(v@) == ts,
            Err(e) => r == Err::<Vec<Vec<u64>>, ErrorKind>(e),
        },
{
    let ghost locals = addresses(functions@);
    let mut tables: Vec<Vec<u64>> = Vec::new();
    let mut i: usize = 0;
    while i < sizes.len()
        invariant
            i <= sizes@.len(),
            tables@.len() == i,
            tables_view(tables@) == empty_tables(sizes@.subrange(0, i as int)),
        decreases sizes@.len() - i,
    {
        let t: Vec<u64> = vec![0u64; sizes[i]];
        assert(t@ =~= Seq::new(sizes@[i as int] as nat, |j: int| 0u64));
        let ghost before = tables@;
        tables.push(t);
        assert forall|j: int| 0 <= j < i + 1 implies #[trigger] tables_view(tables@)[j] == empty_tables(
            sizes@.subrange(0, i as int + 1),
        )[j] by {
            if j < i {
                assert(tables@[j] == before[j]);
                assert(tables_view(before)[j] == empty_tables(sizes@.subrange(0, i as int))[j]);
            } else {
                assert(tables@[j]@ == t@);
            }
        }
        assert(tables_view(tables@) =~= empty_tables(sizes@.subrange(0, i as int + 1)));
        i = i + 1;
    }
    assert(sizes@.subrange(0, i as int) =~= sizes@);
    let mut k: usize = 0;
    while k < segments.len()
        invariant
            k <= segments@.len(),
            tables_after(sizes@, segments@.subrange(0, k as int), imports@, locals) == Ok::<
                Seq<Seq<u64>>,
                ErrorKind,
            >(tables_view(tables@)),
            locals == addresses(functions@),
        decreases segments@.len() - k,
    {
        let seg = &segments[k];
        let ghost p = segments@.subrange(0, k as int + 1);
        assert(p.drop_last() =~= segments@.subrange(0, k as int));
        proof {
            lemma_tables_after_shape(sizes@, segments@.subrange(0, k as int), imports@, locals);
        }
        if seg.base.is_some() {
            proof {
                lemma_tables_after_err(sizes@, segments@, k as int + 1, imports@, locals);
            }
            return Err(ErrorKind::UnsupportedElementBase { segment: k });
        }
        let ti = seg.table_index;
        if ti >= tables.len() || seg.offset > tables[ti].len() || seg.elements.len() > tables[ti].len()
            - seg.offset {
            proof {
                lemma_tables_after_err(sizes@, segments@, k as int + 1, imports@, locals);
            }
            return Err(ErrorKind::TableInitOutOfBounds { segment: k });
        }
        let addrs = match resolve_elements(&seg.elements, imports, functions) {
            Ok(a) => a,
            Err(e) => {
                proof {
                    lemma_tables_after_err(sizes@, segments@, k as int + 1, imports@, locals);
                }
                return Err(e);
            },
        };
        let mut table = tables[ti].clone();
        assert(table@ =~= tables@[ti as int]@);
        copy_into(&mut table, seg.offset, &addrs);
        let ghost before = tables@;
        tables.set(ti, table);
        assert(tables_view(tables@) =~= tables_view(before).update(
            ti as int,
            overwritten(tables_view(before)[ti as int], seg.offset as int, addrs@),
        ));
        k = k + 1;
    }
    assert(segments@.subrange(0, k as int) =~= segments@);
    Ok(tables)
}

/// The memories a module owns: those it declares, or a single empty one.
pub open spec fn effective_memories(descs: Seq<MemoryDesc>) -> Seq<MemoryDesc> {
    if descs.len() == 0 {
        seq![MemoryDesc { pages_count: 0, maximum: None }]
    } else {
        descs
    }
}

/// The first memory whose initial size exceeds what it may hold.
pub open spec fn invalid_memory(ds: Seq<MemoryDesc>) -> Option<ErrorKind>
    decreases ds.len(),
{
    if ds.len() == 0 {
        None
    } else {
        match invalid_memory(ds.drop_last()) {
            Some(e) => Some(e),
            None => if ds.last().pages_count > page_limit(ds.last().maximum) {
                Some(ErrorKind::InvalidMemoryLimits { memory_index: (ds.len() - 1) as usize })
            } else {
                None
            },
        }
    }
}

/// Zero-filled contents for the given memories.
pub open spec fn initial_bytes(ds: Seq<MemoryDesc>) -> Seq<Seq<u8>> {
    Seq::new(ds.len(), |i: int| zeros((ds[i].pages_count * WASM_PAGE_SIZE) as nat))
}

/// The memory contents after the data segments `inits` are written in
/// order; the first segment that cannot be written stops construction.
pub open spec fn data_after(mems: Seq<Seq<u8>>, inits: Seq<DataInitializer>) -> Result<
    Seq<Seq<u8>>,
    ErrorKind,
>
    decreases inits.len(),
{
    if inits.len() == 0 {
        Ok(mems)
    } else {
        match data_after(mems, inits.drop_last()) {
            Err(e) => Err(e),
            Ok(ms) => {
                let d = inits.last();
                let k = (inits.len() - 1) as usize;
                if d.base is Some {
                    Err(ErrorKind::UnsupportedDataBase { segment: k })
                } else if d.memory_index >= ms.len() || d.offset + d.data@.len()
                    > ms[d.memory_index as int].len() {
                    Err(ErrorKind::DataInitOutOfBounds { segment: k })
                } else {
                    Ok(
                        ms.update(
                            d.memory_index as int,
                            overwritten(ms[d.memory_index as int], d.offset as int, d.data@),
                        ),
                    )
                }
            },
        }
    }
}

/// The initial contents of the memories of a module, or why they cannot be
/// built.
pub open spec fn memories_after(descs: Seq<MemoryDesc>, inits: Seq<DataInitializer>) -> Result<
    Seq<Seq<u8>>,
    ErrorKind,
> {
    match invalid_memory(effective_memories(descs)) {
        Some(e) => Err(e),
        None => data_after(initial_bytes(effective_memories(descs)), inits),
    }
}

/// The contents of the given memories.
pub open spec fn memories_view(ms: Seq<LinearMemory>) -> Seq<Seq<u8>> {
    Seq::new(ms.len(), |i: int| ms[i].bytes())
}

proof fn lemma_invalid_memory_err(ds: Seq<MemoryDesc>, k: int)
    requires
        0 <= k <= ds.len(),
        invalid_memory(ds.subrange(0, k)) is Some,
    ensures
        invalid_memory(ds) == invalid_memory(ds.subrange(0, k)),
    decreases ds.len() - k,
{
    if k < ds.len() {
        assert(ds.subrange(0, k + 1).drop_last() =~= ds.subrange(0, k));
        lemma_invalid_memory_err(ds, k + 1);
    } else {
        assert(ds.subrange(0, k) =~= ds);
    }
}

proof fn lemma_data_after_err(mems: Seq<Seq<u8>>, inits: Seq<DataInitializer>, k: int)
    requires
        0 <= k <= inits.len(),
        data_after(mems, inits.subrange(0, k)) is Err,
    ensures
        data_after(mems, inits) == data_after(mems, inits.subrange(0, k)),
    decreases inits.len() - k,
{
    if k < inits.len() {
        assert(inits.subrange(0, k + 1).drop_last() =~= inits.subrange(0, k));
        lemma_data_after_err(mems, inits, k + 1);
    } else {
        assert(inits.subrange(0, k) =~= inits);
    }
}

/// Allocates the memories of a module (a single empty one where it declares
/// none) and writes the data segments into them in order.
pub fn build_memories(descs: &Vec<MemoryDesc>, inits: &Vec<DataInitializer>) -> (r: Result<
    Vec<LinearMemory>,
    ErrorKind,
>)
    ensures
        match memories_after(descs@, inits@) {
            Ok(bs) => r matches Ok(ms) && memories_view(ms@) == bs && ms@.len()
                == effective_memories(descs@).len() && forall|i: int|
                0 <= i < ms@.len() ==> {
                    &&& #[trigger] ms@[i].wf()
                    &&& ms@[i].pages() == effective_memories(descs@)[i].pages_count
                    &&& ms@[i].maximum_pages() == effective_memories(descs@)[i].maximum
                },
            Err(e) => r == Err::<Vec<LinearMemory>, ErrorKind>(e),
        },
{
    let ghost eff = effective_memories(descs@);
    let mut ds: Vec<MemoryDesc> = Vec::new();
    if descs.len() == 0 {
        ds.push(MemoryDesc { pages_count: 0, maximum: None });
        assert(ds@ =~= eff);
    } else {
        ds = descs.clone();
        assert(ds@ =~= eff);
    }
    let mut memories: Vec<LinearMemory> = Vec::new();
    let mut i: usize = 0;
    while i < ds.len()
        invariant
            eff == effective_memories(descs@),
            ds@ == eff,
            i <= ds@.len(),
            memories@.len() == i,
            invalid_memory(ds@.subrange(0, i as int)) is None,
            memories_view(memories@) == initial_bytes(ds@.subrange(0, i as int)),
            forall|j: int|
                0 <= j < i ==> {
                    &&& #[trigger] memories@[j].wf()
                    &&& memories@[j].pages() == ds@[j].pages_count
                    &&& memories@[j].maximum_pages() == ds@[j].maximum
                },
        decreases ds@.len() - i,
    {
        let d = ds[i];
        assert(ds@.subrange(0, i as int + 1).drop_last() =~= ds@.subrange(0, i as int));
        match LinearMemory::new(d.pages_count, d.maximum) {
            Some(m) => {
                let ghost before = memories@;
                memories.push(m);
                assert forall|j: int| 0 <= j < i + 1 implies #[trigger] memories_view(memories@)[j]
                    == initial_bytes(ds@.subrange(0, i as int + 1))[j] by {
                    if j < i {
                        assert(memories@[j] == before[j]);
                        assert(memories_view(before)[j] == initial_bytes(ds@.subrange(0, i as int))[j]);
                    }
                }
                assert(memories_view(memories@) =~= initial_bytes(ds@.subrange(0, i as int + 1)));
                assert forall|j: int| 0 <= j < i + 1 implies {
                    &&& #[trigger] memories@[j].wf()
                    &&& memories@[j].pages() == ds@[j].pages_count
                    &&& memories@[j].maximum_pages() == ds@[j].maximum
                } by {
                    if j < i {
                        assert(memories@[j] == before[j]);
                        assert(before[j].wf());
                    }
                }
            },
            None => {
                proof {
                    lemma_invalid_memory_err(ds@, i as int + 1);
                }
                return Err(ErrorKind::InvalidMemoryLimits { memory_index: i });
            },
        }
        i = i + 1;
    }
    assert(ds@.subrange(0, i as int) =~= ds@);
    let ghost start = memories_view(memories@);
    let mut k: usize = 0;
    while k < inits.len()
        invariant
            eff == effective_memories(descs@),
            ds@ == eff,
            k <= inits@.len(),
            memories@.len() == ds@.len(),
            start == initial_bytes(eff),
            invalid_memory(eff) is None,
            data_after(start, inits@.subrange(0, k as int)) == Ok::<Seq<Seq<u8>>, ErrorKind>(
                memories_view(memories@),
            ),
            forall|j: int|
                0 <= j < memories@.len() ==> {
                    &&& #[trigger] memories@[j].wf()
                    &&& memories@[j].pages() == ds@[j].pages_count
                    &&& memories@[j].maximum_pages() == ds@[j].maximum
                },
        decreases inits@.len() - k,
    {
        let d = &inits[k];
        assert(inits@.subrange(0, k as int + 1).drop_last() =~= inits@.subrange(0, k as int));
        if d.base.is_some() {
            proof {
                lemma_data_after_err(start, inits@, k as int + 1);
            }
            return Err(ErrorKind::UnsupportedDataBase { segment: k });
        }
        let mi = d.memory_index;
        if mi >= memories.len() {
            proof {
                lemma_data_after_err(start, inits@, k as int + 1);
            }
            return Err(ErrorKind::DataInitOutOfBounds { segment: k });
        }
        let ghost before = memories@;
        let ok = memories[mi].write_bytes(d.offset, d.data.as_slice());
        if !ok {
            proof {
                lemma_data_after_err(start, inits@, k as int + 1);
            }
            return Err(ErrorKind::DataInitOutOfBounds { segment: k });
        }
        assert forall|j: int| 0 <= j < memories@.len() && j != mi implies memories@[j] == before[j] by {}
        assert forall|j: int| 0 <= j < memories@.len() implies {
            &&& #[trigger] memories@[j].wf()
            &&& memories@[j].pages() == ds@[j].pages_count
            &&& memories@[j].maximum_pages() == ds@[j].maximum
        } by {
            assert(before[j].wf());
            if j != mi {
                assert(memories@[j] == before[j]);
            }
        }
        assert(memories_view(memories@) =~= memories_view(before).update(
            mi as int,
            overwritten(memories_view(before)[mi as int], d.offset as int, d.data@),
        ));
        k = k + 1;
    }
    assert(inits@.subrange(0, k as int) =~= inits@);
    assert(memories_after(descs@, inits@) == data_after(start, inits@));
    assert(memories_view(memories@) == memories_after(descs@, inits@)->Ok_0);
    assert(memories@.len() == eff.len());
    Ok(memories)
}

/// The 8-byte slot a global starts with, where its initializer is a
/// constant: integers sign-extended to 64 bits, float bits zero-extended.
pub open spec fn global_value(g: GlobalInit) -> Option<u64> {
    match g {
        GlobalInit::I32Const(n) => Some((n as i64) as u64),
        GlobalInit::I64Const(n) => Some(n as u64),
        GlobalInit::F32Const(b) => Some(b as u64),
        GlobalInit::F64Const(b) => Some(b),
        _ => None,
    }
}

/// The eight little-endian bytes of `v`.
pub open spec fn le_seq(v: u64) -> Seq<u8> {
    Seq::new(8, |k: int| le_byte(v, k as nat))
}

/// The globals buffer: one 8-byte slot per global, in order; the first
/// initializer that is not a constant stops construction.
pub open spec fn globals_after(gs: Seq<GlobalInit>) -> Result<Seq<u8>, ErrorKind>
    decreases gs.len(),
{
    if gs.len() == 0 {
        Ok(Seq::empty())
    } else {
        match globals_after(gs.drop_last()) {
            Err(e) => Err(e),
            Ok(b) => match global_value(gs.last()) {
                Some(v) => Ok(b + le_seq(v)),
                None => Err(ErrorKind::UnsupportedGlobalInit { global_index: (gs.len() - 1) as usize }),
            },
        }
    }
}

/// The globals buffer is an array of 8-byte slots, one per global in
/// declaration order, each holding the global's initial value little-endian.
pub proof fn lemma_global_slots(gs: Seq<GlobalInit>)
    requires
        globals_after(gs) is Ok,
    ensures
        globals_after(gs)->Ok_0.len() == 8 * gs.len(),
        forall|i: int|
            0 <= i < gs.len() ==> global_value(#[trigger] gs[i]) is Some && read_u64_le(
                globals_after(gs)->Ok_0,
                8 * i,
            ) == global_value(gs[i])->Some_0,
    decreases gs.len(),
{
    if gs.len() > 0 {
        let init = gs.drop_last();
        lemma_global_slots(init);
        let b0 = globals_after(init)->Ok_0;
        let v = global_value(gs.last())->Some_0;
        let b = globals_after(gs)->Ok_0;
        assert(b == b0 + le_seq(v));
        assert forall|i: int| 0 <= i < gs.len() implies global_value(#[trigger] gs[i]) is Some
            && read_u64_le(b, 8 * i) == global_value(gs[i])->Some_0 by {
            if i < gs.len() - 1 {
                assert(init[i] == gs[i]);
                let w = global_value(gs[i])->Some_0;
                assert(read_u64_le(b0, 8 * i) == w);
                assert(b[8 * i] == b0[8 * i]);
                assert(b[8 * i + 1] == b0[8 * i + 1]);
                assert(b[8 * i + 2] == b0[8 * i + 2]);
                assert(b[8 * i + 3] == b0[8 * i + 3]);
                assert(b[8 * i + 4] == b0[8 * i + 4]);
                assert(b[8 * i + 5] == b0[8 * i + 5]);
                assert(b[8 * i + 6] == b0[8 * i + 6]);
                assert(b[8 * i + 7] == b0[8 * i + 7]);
            } else {
                assert forall|k: nat| k < 8 implies b[8 * i + k] == le_byte(v, k) by {
                    assert(b[8 * i + k] == le_seq(v)[k as int]);
                }
                lemma_read_le_bytes(b, 8 * i, v);
            }
        }
    }
}

proof fn lemma_globals_after_err(gs: Seq<GlobalInit>, k: int)
    requires
        0 <= k <= gs.len(),
        globals_after(gs.subrange(0, k)) is Err,
    ensures
        globals_after(gs) == globals_after(gs.subrange(0, k)),
    decreases gs.len() - k,
{
    if k < gs.len() {
        assert(gs.subrange(0, k + 1).drop_last() =~= gs.subrange(0, k));
        lemma_globals_after_err(gs, k + 1);
    } else {
        assert(gs.subrange(0, k) =~= gs);
    }
}

/// Builds the globals buffer from constant initializers, in declaration
/// order.
pub fn build_globals(gs: &Vec<GlobalInit>) -> (r: Result<Vec<u8>, ErrorKind>)
    ensures
        match globals_after(gs@) {
            Ok(b) => r matches Ok(v) && v@ == b,
            Err(e) => r == Err::<Vec<u8>, ErrorKind>(e),
        },
{
    let mut out: Vec<u8> = Vec::new();
    let mut i: usize = 0;
    while i < gs.len()
        invariant
            i <= gs@.len(),
            globals_after(gs@.subrange(0, i as int)) == Ok::<Seq<u8>, ErrorKind>(out@),
        decreases gs@.len() - i,
    {
        assert(gs@.subrange(0, i as int + 1).drop_last() =~= gs@.subrange(0, i as int));
        let bits: u64 = match gs[i] {
            GlobalInit::I32Const(n) => (n as i64) as u64,
            GlobalInit::I64Const(n) => n as u64,
            GlobalInit::F32Const(b) => b as u64,
            GlobalInit::F64Const(b) => b,
            _ => {
                proof {
                    lemma_globals_after_err(gs@, i as int + 1);
                }
                return Err(ErrorKind::UnsupportedGlobalInit { global_index: i });
            },
        };
        let ghost before = out@;
        let mut k: usize = 0;
        while k < 8
            invariant
                k <= 8,
                out@ == before + le_seq(bits).subrange(0, k as int),
            decreases 8 - k,
        {
            out.push(((bits >> (8 * k) as u64) & 0xff) as u8);
            assert(out@ =~= before + le_seq(bits).subrange(0, k as int + 1));
            k = k + 1;
        }
        assert(le_seq(bits).subrange(0, 8) =~= le_seq(bits));
        i = i + 1;
    }
    assert(gs@.subrange(0, i as int) =~= gs@);
    Ok(out)
}

} // verus!
