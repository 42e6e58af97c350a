//! Relocations and the linker step that patches them into code buffers.
use vstd::prelude::*;

use crate::bytes::{
    lemma_read_stored_u32, lemma_read_stored_u64, read_u32_le, read_u64_le, store_le, stored_le,
};
use crate::errors::ErrorKind;
use crate::indexes::FunctionIndex;

verus! {

/// How a relocation is written into code.
#[derive(Copy, Clone, PartialEq, Eq, Structural, Debug)]
pub enum RelocKind {
    /// An absolute 4-byte address.
    Abs4,
    /// An absolute 8-byte address.
    Abs8,
    /// A 4-byte displacement relative to the patched location.
    X86PCRel4,
    /// A 4-byte call displacement.
    X86CallPCRel4,
    /// A 4-byte call displacement through the procedure linkage table.
    X86CallPLTRel4,
    /// A 4-byte displacement to a global offset table entry.
    X86GOTPCRel4,
    /// An ARM 32-bit call.
    Arm32Call,
    /// An ARM 64-bit call.
    Arm64Call,
    /// A RISC-V call.
    RiscvCall,
}

/// Runtime library calls that generated code may ask for.
#[derive(Copy, Clone, PartialEq, Eq, Structural, Debug)]
pub enum LibCall {
    Probestack,
    CeilF32,
    CeilF64,
    FloorF32,
    FloorF64,
    TruncF32,
    TruncF64,
    NearestF32,
    NearestF64,
    Memcpy,
    Memset,
    Memmove,
}

/// What a relocation refers to.
#[derive(Copy, Clone, PartialEq, Eq, Structural, Debug)]
pub enum RelocTarget {
    /// A function, imported or local.
    Function(FunctionIndex),
    /// The runtime entry point that reports the memory size.
    CurrentMemory,
    /// The runtime entry point that grows memory.
    GrowMemory,
    /// A runtime library call.
    LibCall(LibCall),
}

/// A deferred patch recorded while a function was compiled.
#[derive(Copy, Clone, PartialEq, Eq, Structural, Debug)]
pub struct Relocation {
    pub kind: RelocKind,
    /// Byte offset of the patch in the function's code.
    pub offset: u32,
    pub addend: i64,
    pub target: RelocTarget,
}

/// The fixed native entry points that relocations to the runtime resolve to.
#[derive(Copy, Clone, PartialEq, Eq, Structural, Debug)]
pub struct RuntimeEntries {
    pub grow_memory: u64,
    pub current_memory: u64,
    pub ceil_f32: u64,
    pub floor_f32: u64,
    pub trunc_f32: u64,
    pub nearest_f32: u64,
    pub ceil_f64: u64,
    pub floor_f64: u64,
    pub trunc_f64: u64,
    pub nearest_f64: u64,
    /// The stub that stands in for a missing import when mocking is on.
    pub mock_import: u64,
}

/// The native code of one local function, and where it is placed.
#[derive(Clone, Debug)]
pub struct CodeBuffer {
    pub code: Vec<u8>,
    pub address: u64,
}

/// The addresses of the given code buffers, in order.
pub open spec fn addresses(fs: Seq<CodeBuffer>) -> Seq<u64> {
    Seq::new(fs.len(), |i: int| fs[i].address)
}

/// The address of function `idx`: imports come first, local functions after.
pub open spec fn function_address(imports: Seq<u64>, locals: Seq<u64>, idx: nat) -> Option<u64> {
    if idx < imports.len() {
        Some(imports[idx as int])
    } else if idx - imports.len() < locals.len() {
        Some(locals[idx - imports.len()])
    } else {
        None
    }
}

/// The entry point of a library call, where the runtime has one.
pub open spec fn lib_call_address(c: LibCall, rt: RuntimeEntries) -> Option<u64> {
    match c {
        LibCall::CeilF32 => Some(rt.ceil_f32),
        LibCall::FloorF32 => Some(rt.floor_f32),
        LibCall::TruncF32 => Some(rt.trunc_f32),
        LibCall::NearestF32 => Some(rt.nearest_f32),
        LibCall::CeilF64 => Some(rt.ceil_f64),
        LibCall::FloorF64 => Some(rt.floor_f64),
        LibCall::TruncF64 => Some(rt.trunc_f64),
        LibCall::NearestF64 => Some(rt.nearest_f64),
        _ => None,
    }
}

/// The address a relocation target resolves to.
pub open spec fn target_address(
    t: RelocTarget,
    imports: Seq<u64>,
    locals: Seq<u64>,
    rt: RuntimeEntries,
) -> Result<u64, ErrorKind> {
    match t {
        RelocTarget::Function(f) => match function_address(imports, locals, f.pos()) {
            Some(a) => Ok(a),
            None => Err(ErrorKind::UnresolvedFunction(f)),
        },
        RelocTarget::CurrentMemory => Ok(rt.current_memory),
        RelocTarget::GrowMemory => Ok(rt.grow_memory),
        RelocTarget::LibCall(c) => match lib_call_address(c, rt) {
            Some(a) => Ok(a),
            None => Err(ErrorKind::UnsupportedLibCall(c)),
        },
    }
}

/// The value an absolute relocation stores.
pub open spec fn abs_value(target: u64, addend: i64) -> int {
    target + addend
}

/// The displacement a PC-relative relocation stores: from the patched
/// location to the target, plus the addend.
pub open spec fn pcrel_value(target: u64, code_address: u64, offset: u32, addend: i64) -> int {
    target - (code_address + offset) + addend
}

/// `code`, placed at `code_address`, with relocation `r` of function
/// `fi` patched to point at `target`.
pub open spec fn patched(
    code: Seq<u8>,
    code_address: u64,
    r: Relocation,
    target: u64,
    fi: usize,
) -> Result<Seq<u8>, ErrorKind> {
    match r.kind {
        RelocKind::Abs8 => if r.offset + 8 > code.len() {
            Err(ErrorKind::RelocationOutOfBounds { function_index: fi, offset: r.offset })
        } else if !(0 <= abs_value(target, r.addend) <= u64::MAX) {
            Err(ErrorKind::RelocationOverflow { function_index: fi, offset: r.offset })
        } else {
            Ok(stored_le(code, r.offset as int, abs_value(target, r.addend) as u64, 8))
        },
        RelocKind::X86PCRel4 => if r.offset + 4 > code.len() {
            Err(ErrorKind::RelocationOutOfBounds { function_index: fi, offset: r.offset })
        } else if !(i32::MIN <= pcrel_value(target, code_address, r.offset, r.addend)
            <= i32::MAX) {
            Err(ErrorKind::RelocationOverflow { function_index: fi, offset: r.offset })
        } else {
            Ok(
                stored_le(
                    code,
                    r.offset as int,
                    (pcrel_value(target, code_address, r.offset, r.addend) % 0x1_0000_0000) as u64,
                    4,
                ),
            )
        },
        _ => Err(ErrorKind::UnsupportedRelocKind(r.kind)),
    }
}

/// `code` with the relocations `rs` resolved and patched in order; the first
/// error stops the patching.
pub open spec fn patched_all(
    code: Seq<u8>,
    code_address: u64,
    rs: Seq<Relocation>,
    imports: Seq<u64>,
    locals: Seq<u64>,
    rt: RuntimeEntries,
    fi: usize,
) -> Result<Seq<u8>, ErrorKind>
    decreases rs.len(),
{
    if rs.len() == 0 {
        Ok(code)
    } else {
        match patched_all(code, code_address, rs.drop_last(), imports, locals, rt, fi) {
            Err(e) => Err(e),
            Ok(c) => match target_address(rs.last().target, imports, locals, rt) {
                Err(e) => Err(e),
                Ok(t) => patched(c, code_address, rs.last(), t, fi),
            },
        }
    }
}

/// Once patching has failed, further relocations keep the same error.
pub proof fn lemma_patched_all_err(
    code: Seq<u8>,
    code_address: u64,
    rs: Seq<Relocation>,
    k: int,
    imports: Seq<u64>,
    locals: Seq<u64>,
    rt: RuntimeEntries,
    fi: usize,
)
    requires
        0 <= k <= rs.len(),
        patched_all(code, code_address, rs.subrange(0, k), imports, locals, rt, fi) is Err,
    ensures
        patched_all(code, code_address, rs, imports, locals, rt, fi) == patched_all(
            code,
            code_address,
            rs.subrange(0, k),
            imports,
            locals,
            rt,
            fi,
        ),
    decreases rs.len() - k,
{
    if k < rs.len() {
        let p = rs.subrange(0, k + 1);
        assert(p.drop_last() =~= rs.subrange(0, k));
        lemma_patched_all_err(code, code_address, rs, k + 1, imports, locals, rt, fi);
    } else {
        assert(rs.subrange(0, k) =~= rs);
    }
}

/// An absolute relocation stores the target address plus the addend in the
/// eight bytes at its offset, exactly.
pub proof fn lemma_abs8_patch(code: Seq<u8>, code_address: u64, r: Relocation, target: u64, fi: usize)
    requires
        r.kind == RelocKind::Abs8,
        r.offset + 8 <= code.len(),
        0 <= target + r.addend <= u64::MAX,
    ensures
        patched(code, code_address, r, target, fi) matches Ok(c) && c.len() == code.len()
            && read_u64_le(c, r.offset as int) == target + r.addend,
{
    lemma_read_stored_u64(code, r.offset as int, abs_value(target, r.addend) as u64);
}

/// A PC-relative relocation stores, in the four bytes at its offset, the
/// distance from the patched location to the target plus the addend,
/// truncated to 32 bits; one whose distance does not fit is refused.
pub proof fn lemma_pcrel4_patch(
    code: Seq<u8>,
    code_address: u64,
    r: Relocation,
    target: u64,
    fi: usize,
)
    requires
        r.kind == RelocKind::X86PCRel4,
        r.offset + 4 <= code.len(),
    ensures
        i32::MIN <= target - (code_address + r.offset) + r.addend <= i32::MAX ==> (patched(
            code,
            code_address,
            r,
            target,
            fi,
        ) matches Ok(c) && c.len() == code.len() && read_u32_le(c, r.offset as int) as int == (
        target - (code_address + r.offset) + r.addend) % 0x1_0000_0000),
        !(i32::MIN <= target - (code_address + r.offset) + r.addend <= i32::MAX) ==> patched(
            code,
            code_address,
            r,
            target,
            fi,
        ) == Err::<Seq<u8>, ErrorKind>(
            ErrorKind::RelocationOverflow { function_index: fi, offset: r.offset },
        ),
{
    let d = pcrel_value(target, code_address, r.offset, r.addend);
    if i32::MIN <= d <= i32::MAX {
        lemma_read_stored_u32(code, r.offset as int, (d % 0x1_0000_0000) as u64);
    }
}

/// How many bytes a supported relocation overwrites.
pub open spec fn reloc_width(kind: RelocKind) -> int {
    match kind {
        RelocKind::Abs8 => 8,
        RelocKind::X86PCRel4 => 4,
        _ => 0,
    }
}

/// Relocations `a` and `b` overwrite no byte in common.
pub open spec fn disjoint(a: Relocation, b: Relocation) -> bool {
    a.offset + reloc_width(a.kind) <= b.offset || b.offset + reloc_width(b.kind) <= a.offset
}

/// A successful patch leaves every byte outside its own range as it was.
proof fn lemma_patched_frame(code: Seq<u8>, code_address: u64, r: Relocation, target: u64, fi: usize)
    requires
        patched(code, code_address, r, target, fi) is Ok,
    ensures
        ({
            let c = patched(code, code_address, r, target, fi)->Ok_0;
            &&& c.len() == code.len()
            &&& r.offset + reloc_width(r.kind) <= code.len()
            &&& forall|i: int|
                0 <= i < code.len() && !(r.offset <= i < r.offset + reloc_width(r.kind)) ==> c[i]
                    == code[i]
        }),
{
}

/// The linked code keeps, for relocation `k`, the value its patch stored,
/// as long as no later relocation writes over it: for an absolute one the
/// target address plus the addend, for a PC-relative one the distance from
/// the patched location to the target plus the addend, truncated to 32 bits.
pub proof fn lemma_linked_relocation(
    code: Seq<u8>,
    code_address: u64,
    rs: Seq<Relocation>,
    imports: Seq<u64>,
    locals: Seq<u64>,
    rt: RuntimeEntries,
    fi: usize,
    k: int,
)
    requires
        0 <= k < rs.len(),
        patched_all(code, code_address, rs, imports, locals, rt, fi) is Ok,
        forall|j: int| k < j < rs.len() ==> disjoint(#[trigger] rs[j], rs[k]),
    ensures
        target_address(rs[k].target, imports, locals, rt) is Ok,
        ({
            let c = patched_all(code, code_address, rs, imports, locals, rt, fi)->Ok_0;
            let t = target_address(rs[k].target, imports, locals, rt)->Ok_0;
            let off = rs[k].offset as int;
            &&& rs[k].kind == RelocKind::Abs8 || rs[k].kind == RelocKind::X86PCRel4
            &&& off + reloc_width(rs[k].kind) <= c.len()
            &&& rs[k].kind == RelocKind::Abs8 ==> read_u64_le(c, off) == t + rs[k].addend
            &&& rs[k].kind == RelocKind::X86PCRel4 ==> {
                &&& i32::MIN <= pcrel_value(t, code_address, rs[k].offset, rs[k].addend) <= i32::MAX
                &&& read_u32_le(c, off) as int == pcrel_value(
                    t,
                    code_address,
                    rs[k].offset,
                    rs[k].addend,
                ) % 0x1_0000_0000
            }
        }),
    decreases rs.len(),
{
    let prev = patched_all(code, code_address, rs.drop_last(), imports, locals, rt, fi);
    let last = rs.last();
    let t_last = target_address(last.target, imports, locals, rt)->Ok_0;
    let c = patched_all(code, code_address, rs, imports, locals, rt, fi)->Ok_0;
    let r = rs[k];
    let off = r.offset as int;
    if k == rs.len() - 1 {
        let cp = prev->Ok_0;
        lemma_patched_frame(cp, code_address, r, t_last, fi);
        if r.kind == RelocKind::Abs8 {
            lemma_abs8_patch(cp, code_address, r, t_last, fi);
        } else {
            lemma_pcrel4_patch(cp, code_address, r, t_last, fi);
        }
    } else {
        assert forall|j: int| k < j < rs.drop_last().len() implies disjoint(
            #[trigger] rs.drop_last()[j],
            rs.drop_last()[k],
        ) by {
            assert(disjoint(rs[j], rs[k]));
        }
        lemma_linked_relocation(code, code_address, rs.drop_last(), imports, locals, rt, fi, k);
        let cp = prev->Ok_0;
        lemma_patched_frame(cp, code_address, last, t_last, fi);
        assert(disjoint(last, r));
        assert(rs.drop_last()[k] == r);
        if r.kind == RelocKind::Abs8 {
            assert(c[off] == cp[off]);
            assert(c[off + 1] == cp[off + 1]);
            assert(c[off + 2] == cp[off + 2]);
            assert(c[off + 3] == cp[off + 3]);
            assert(c[off + 4] == cp[off + 4]);
            assert(c[off + 5] == cp[off + 5]);
            assert(c[off + 6] == cp[off + 6]);
            assert(c[off + 7] == cp[off + 7]);
        } else {
            assert(c[off] == cp[off]);
            assert(c[off + 1] == cp[off + 1]);
            assert(c[off + 2] == cp[off + 2]);
            assert(c[off + 3] == cp[off + 3]);
        }
    }
}

/// The address of function `func_index`: indices below the number of imports
/// name imports, the others name local functions after them; `None` past
/// the last local function.
pub fn get_function_addr(
    func_index: FunctionIndex,
    import_functions: &Vec<u64>,
    functions: &Vec<CodeBuffer>,
) -> (r: Option<u64>)
    ensures
        r == function_address(import_functions@, addresses(functions@), func_index.pos()),
{
    let index = func_index.index();
    let len = import_functions.len();
    if index < len {
        Some(import_functions[index])
    } else if index - len < functions.len() {
        Some(functions[index - len].address)
    } else {
        None
    }
}

/// Resolves a relocation target to an address.
pub fn resolve_target(
    target: RelocTarget,
    import_functions: &Vec<u64>,
    functions: &Vec<CodeBuffer>,
    rt: &RuntimeEntries,
) -> (r: Result<u64, ErrorKind>)
    ensures
        r == target_address(target, import_functions@, addresses(functions@), *rt),
{
    match target {
        RelocTarget::Function(f) => match get_function_addr(f, import_functions, functions) {
            Some(a) => Ok(a),
            None => Err(ErrorKind::UnresolvedFunction(f)),
        },
        RelocTarget::CurrentMemory => Ok(rt.current_memory),
        RelocTarget::GrowMemory => Ok(rt.grow_memory),
        RelocTarget::LibCall(c) => match c {
            LibCall::CeilF32 => Ok(rt.ceil_f32),
            LibCall::FloorF32 => Ok(rt.floor_f32),
            LibCall::TruncF32 => Ok(rt.trunc_f32),
            LibCall::NearestF32 => Ok(rt.nearest_f32),
            LibCall::CeilF64 => Ok(rt.ceil_f64),
            LibCall::FloorF64 => Ok(rt.floor_f64),
            LibCall::TruncF64 => Ok(rt.trunc_f64),
            LibCall::NearestF64 => Ok(rt.nearest_f64),
            _ => Err(ErrorKind::UnsupportedLibCall(c)),
        },
    }
}

/// Patches relocation `r` of function `fi`, placed at `code_address`, into
/// `code` so that it points at `target`. On error the code is unchanged.
pub fn apply_relocation(
    code: &mut Vec<u8>,
    code_address: u64,
    r: Relocation,
    target: u64,
    fi: usize,
) -> (res: Result<(), ErrorKind>)
    ensures
        match patched(old(code)@, code_address, r, target, fi) {
            Ok(c) => res is Ok && final(code)@ == c,
            Err(e) => res == Err::<(), ErrorKind>(e) && final(code)@ == old(code)@,
        },
{
    let n = code.len();
    let off = r.offset as usize;
    match r.kind {
        RelocKind::Abs8 => {
            if off > n || n - off < 8 {
                return Err(ErrorKind::RelocationOutOfBounds { function_index: fi, offset: r.offset });
            }
            let v: i128 = target as i128 + r.addend as i128;
            if v < 0 || v > u64::MAX as i128 {
                return Err(ErrorKind::RelocationOverflow { function_index: fi, offset: r.offset });
            }
            store_le(code, off, v as u64, 8);
            Ok(())
        },
        RelocKind::X86PCRel4 => {
            if off > n || n - off < 4 {
                return Err(ErrorKind::RelocationOutOfBounds { function_index: fi, offset: r.offset });
            }
            let d: i128 = target as i128 - (code_address as i128 + r.offset as i128) + r.addend as i128;
            if d < i32::MIN as i128 || d > i32::MAX as i128 {
                return Err(ErrorKind::RelocationOverflow { function_index: fi, offset: r.offset });
            }
            let bits: u64 = if d >= 0 {
                d as u64
            } else {
                (d + 0x1_0000_0000i128) as u64
            };
            assert(bits == pcrel_value(target, code_address, r.offset, r.addend) % 0x1_0000_0000);
            store_le(code, off, bits, 4);
            Ok(())
        },
        _ => Err(ErrorKind::UnsupportedRelocKind(r.kind)),
    }
}

/// Resolves and patches every relocation of every local function;
/// `relocations[i]` belongs to `functions[i]`. The addresses and lengths of
/// the buffers never change. On error the buffers may be partly patched.
pub fn link(
    functions: &mut Vec<CodeBuffer>,
    relocations: &Vec<Vec<Relocation>>,
    import_functions: &Vec<u64>,
    rt: &RuntimeEntries,
) -> (res: Result<(), ErrorKind>)
    requires
        relocations.len() == old(functions).len(),
    ensures
        final(functions).len() == old(functions).len(),
        addresses(final(functions)@) == addresses(old(functions)@),
        res is Ok <==> forall|i: int|
            0 <= i < old(functions).len() ==> #[trigger] patched_all(
                old(functions)@[i].code@,
                old(functions)@[i].address,
                relocations@[i]@,
                import_functions@,
                addresses(old(functions)@),
                *rt,
                i as usize,
            ) is Ok,
        res is Ok ==> forall|i: int|
            0 <= i < old(functions).len() ==> patched_all(
                old(functions)@[i].code@,
                old(functions)@[i].address,
                relocations@[i]@,
                import_functions@,
                addresses(old(functions)@),
                *rt,
                i as usize,
            ) == Ok::<Seq<u8>, ErrorKind>(#[trigger] final(functions)@[i].code@),
        res matches Err(e) ==> exists|j: int|
            0 <= j < old(functions).len() && #[trigger] patched_all(
                old(functions)@[j].code@,
                old(functions)@[j].address,
                relocations@[j]@,
                import_functions@,
                addresses(old(functions)@),
                *rt,
                j as usize,
            ) == Err::<Seq<u8>, ErrorKind>(e) && forall|k: int|
                0 <= k < j ==> #[trigger] patched_all(
                    old(functions)@[k].code@,
                    old(functions)@[k].address,
                    relocations@[k]@,
                    import_functions@,
                    addresses(old(functions)@),
                    *rt,
                    k as usize,
                ) is Ok,
{
    let ghost orig = functions@;
    let ghost locals = addresses(functions@);
    let n = functions.len();
    let mut i: usize = 0;
    while i < n
        invariant
            orig == old(functions)@,
            n == orig.len(),
            i <= n,
            relocations.len() == n,
            functions@.len() == n,
            addresses(functions@) == locals,
            locals == addresses(orig),
            forall|k: int| i <= k < n ==> #[trigger] functions@[k] == orig[k],
            forall|k: int|
                0 <= k < i ==> patched_all(
                    orig[k].code@,
                    orig[k].address,
                    relocations@[k]@,
                    import_functions@,
                    locals,
                    *rt,
                    k as usize,
                ) == Ok::<Seq<u8>, ErrorKind>(#[trigger] functions@[k].code@),
        decreases n - i,
    {
        let address = functions[i].address;
        let mut code = functions[i].code.clone();
        assert(code@ =~= orig[i as int].code@);
        let relocs = &relocations[i];
        let m = relocs.len();
        let mut j: usize = 0;
        while j < m
            invariant
                orig == old(functions)@,
                j <= m,
                m == relocs@.len(),
                i < n,
                n == orig.len(),
                functions@.len() == n,
                locals == addresses(functions@),
                locals == addresses(orig),
                address == orig[i as int].address,
                relocs == relocations@[i as int],
                forall|k: int|
                    0 <= k < i ==> patched_all(
                        orig[k].code@,
                        orig[k].address,
                        relocations@[k]@,
                        import_functions@,
                        locals,
                        *rt,
                        k as usize,
                    ) == Ok::<Seq<u8>, ErrorKind>(#[trigger] functions@[k].code@),
                patched_all(
                    orig[i as int].code@,
                    address,
                    relocs@.subrange(0, j as int),
                    import_functions@,
                    locals,
                    *rt,
                    i,
                ) == Ok::<Seq<u8>, ErrorKind>(code@),
            decreases m - j,
        {
            let r = relocs[j];
            let ghost prefix = relocs@.subrange(0, j as int + 1);
            assert(prefix.drop_last() =~= relocs@.subrange(0, j as int));
            assert(prefix.last() == r);
            let target = match resolve_target(r.target, import_functions, functions, rt) {
                Ok(t) => t,
                Err(e) => {
                    proof {
                        lemma_patched_all_err(
                            orig[i as int].code@,
                            address,
                            relocs@,
                            j as int + 1,
                            import_functions@,
                            locals,
                            *rt,
                            i,
                        );
                        assert(patched_all(
                            orig[i as int].code@,
                            orig[i as int].address,
                            relocations@[i as int]@,
                            import_functions@,
                            locals,
                            *rt,
                            (i as int) as usize,
                        ) == Err::<Seq<u8>, ErrorKind>(e));
                    }
                    assert forall|k: int| 0 <= k < i implies #[trigger] patched_all(
                        orig[k].code@,
                        orig[k].address,
                        relocations@[k]@,
                        import_functions@,
                        locals,
                        *rt,
                        k as usize,
                    ) is Ok by {
                        assert(functions@[k].code@ == functions@[k].code@);
                    }
                    return Err(e);
                },
            };
            match apply_relocation(&mut code, address, r, target, i) {
                Ok(()) => {},
                Err(e) => {
                    proof {
                        lemma_patched_all_err(
                            orig[i as int].code@,
                            address,
                            relocs@,
                            j as int + 1,
                            import_functions@,
                            locals,
                            *rt,
                            i,
                        );
                        assert(patched_all(
                            orig[i as int].code@,
                            orig[i as int].address,
                            relocations@[i as int]@,
                            import_functions@,
                            locals,
                            *rt,
                            (i as int) as usize,
                        ) == Err::<Seq<u8>, ErrorKind>(e));
                    }
                    assert forall|k: int| 0 <= k < i implies #[trigger] patched_all(
                        orig[k].code@,
                        orig[k].address,
                        relocations@[k]@,
                        import_functions@,
                        locals,
                        *rt,
                        k as usize,
                    ) is Ok by {
                        assert(functions@[k].code@ == functions@[k].code@);
                    }
                    return Err(e);
                },
            }
            j = j + 1;
        }
        assert(relocs@.subrange(0, m as int) =~= relocs@);
        let ghost before = functions@;
        functions.set(i, CodeBuffer { code, address });
        assert(addresses(functions@) =~= addresses(before));
        i = i + 1;
    }
    assert forall|k: int| 0 <= k < n implies #[trigger] patched_all(
        orig[k].code@,
        orig[k].address,
        relocations@[k]@,
        import_functions@,
        locals,
        *rt,
        k as usize,
    ) is Ok by {
        assert(functions@[k].code@ == functions@[k].code@);
    }
    Ok(())
}

} // verus!
