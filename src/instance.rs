//! Instances: the state of an instantiated module and the pointer layout
//! that its generated code reads.
use vstd::prelude::*;

use std::sync::Arc;

use crate::errors::ErrorKind;
use crate::imports::{bind_imports, bound_address, ImportObject};
use crate::indexes::{ExportIndex, FunctionIndex};
use crate::init::{
    build_globals, build_memories, build_tables, effective_memories, globals_after, memories_after,
    memories_view, tables_after, tables_view, DataInitializer, GlobalInit, MemoryDesc,
    TableElements,
};
use crate::memory::{page_limit, zeros, LinearMemory, WASM_PAGE_SIZE};
use crate::reloc::{
    addresses, function_address, get_function_addr, link, patched_all, CodeBuffer, Relocation,
    RuntimeEntries,
};
use crate::shared::{arc_get_mut, arc_share};

verus! {

/// One local function as the backend emitted it: its code, where the code
/// is placed, and the relocations still to patch.
#[derive(Clone, Debug)]
pub struct CompiledFunction {
    pub code: Vec<u8>,
    pub address: u64,
    pub relocations: Vec<Relocation>,
}

/// A validated module, with its local functions already compiled.
/// Function indices count the imported functions first, then the local ones.
#[derive(Clone, Debug)]
pub struct Module {
    /// `(module, field)` of each imported function, in order.
    pub imported_funcs: Vec<(String, String)>,
    pub functions: Vec<CompiledFunction>,
    /// The declared length of each table.
    pub tables: Vec<usize>,
    pub table_elements: Vec<TableElements>,
    pub memories: Vec<MemoryDesc>,
    pub data_initializers: Vec<DataInitializer>,
    pub globals: Vec<GlobalInit>,
    pub start_func: Option<FunctionIndex>,
    pub exports: Vec<(String, ExportIndex)>,
}

/// Options for instantiation.
#[derive(Copy, Clone, Debug)]
pub struct InstanceOptions {
    /// Bind imports that the import object lacks to a stub instead of failing.
    pub mock_missing_imports: bool,
}

/// Where one buffer of an instance lives, as generated code sees it: which
/// allocation backs it, and its length in elements.
#[derive(Copy, Clone, PartialEq, Eq, Structural, Debug)]
pub struct BufferRef {
    pub generation: u64,
    pub len: usize,
}

/// The buffers of an instance as generated code sees them. Derived from the
/// buffers, and republished whenever one of them may have moved.
#[derive(Clone, Debug)]
pub struct DataPointers {
    pub tables: Vec<BufferRef>,
    pub memories: Vec<BufferRef>,
    pub globals: BufferRef,
}

/// The view of memory `m`.
pub open spec fn memory_ref(m: LinearMemory) -> BufferRef {
    BufferRef { generation: m.generation(), len: m.bytes().len() as usize }
}

/// `dp` describes exactly the given buffers. Tables and globals are never
/// reallocated, so their generation stays 0.
pub open spec fn describes(
    dp: DataPointers,
    tables: Seq<Vec<u64>>,
    memories: Seq<LinearMemory>,
    globals: Seq<u8>,
) -> bool {
    &&& dp.tables@ == Seq::new(
        tables.len(),
        |i: int| BufferRef { generation: 0, len: tables[i]@.len() as usize },
    )
    &&& dp.memories@ == Seq::new(memories.len(), |i: int| memory_ref(memories[i]))
    &&& dp.globals == BufferRef { generation: 0, len: globals.len() as usize }
}

/// The addresses of the given compiled functions, in order.
pub open spec fn local_addresses(fs: Seq<CompiledFunction>) -> Seq<u64> {
    Seq::new(fs.len(), |i: int| fs[i].address)
}

/// Every imported function of `m` is offered or mocked.
pub open spec fn imports_resolved(m: Module, obj: ImportObject, options: InstanceOptions, rt: RuntimeEntries) -> bool {
    forall|i: int|
        0 <= i < m.imported_funcs.len() ==> #[trigger] bound_address(
            obj,
            m.imported_funcs@[i].0@,
            m.imported_funcs@[i].1@,
            options.mock_missing_imports,
            rt.mock_import,
        ) is Some
}

/// The addresses the imported functions of `m` are bound to.
pub open spec fn bound_imports(m: Module, obj: ImportObject, options: InstanceOptions, rt: RuntimeEntries) -> Seq<u64> {
    Seq::new(
        m.imported_funcs.len() as nat,
        |i: int|
            bound_address(
                obj,
                m.imported_funcs@[i].0@,
                m.imported_funcs@[i].1@,
                options.mock_missing_imports,
                rt.mock_import,
            )->Some_0,
    )
}

/// The code of local function `i` of `m` once linked.
pub open spec fn linked(m: Module, imports: Seq<u64>, rt: RuntimeEntries, i: int) -> Result<Seq<u8>, ErrorKind> {
    patched_all(
        m.functions@[i].code@,
        m.functions@[i].address,
        m.functions@[i].relocations@,
        imports,
        local_addresses(m.functions@),
        rt,
        i as usize,
    )
}

/// Every local function of `m` links.
pub open spec fn links(m: Module, imports: Seq<u64>, rt: RuntimeEntries) -> bool {
    forall|i: int| 0 <= i < m.functions.len() ==> #[trigger] linked(m, imports, rt, i) is Ok
}

/// The entry exported under `name`; a later export hides an earlier one.
pub open spec fn export_lookup(s: Seq<(String, ExportIndex)>, name: Seq<char>) -> Option<ExportIndex>
    decreases s.len(),
{
    if s.len() == 0 {
        None
    } else if s.last().0@ == name {
        Some(s.last().1)
    } else {
        export_lookup(s.drop_last(), name)
    }
}

/// The start function: the declared one, else a function exported as `main`.
pub open spec fn start_of(m: Module) -> Option<FunctionIndex> {
    match m.start_func {
        Some(f) => Some(f),
        None => match export_lookup(m.exports@, "main"@) {
            Some(ExportIndex::Function(f)) => Some(f),
            _ => None,
        },
    }
}

/// A stateful instance of a module.
#[derive(Debug)]
pub struct Instance {
    /// What generated code reads to find the buffers below.
    pub data_pointers: DataPointers,
    /// Table contents: function addresses, 0 for an empty slot.
    pub tables: Arc<Vec<Vec<u64>>>,
    /// Linear memories, shared between clones.
    pub memories: Arc<Vec<LinearMemory>>,
    /// Globals: one 8-byte little-endian slot each.
    pub globals: Vec<u8>,
    /// The linked code of the local functions.
    pub functions: Vec<CodeBuffer>,
    /// The addresses the imported functions are bound to.
    pub import_functions: Vec<u64>,
    /// The function to run once instantiated.
    pub start_func: Option<FunctionIndex>,
}

impl Instance {
    /// The published pointers describe the current buffers, and every
    /// memory is well formed; there is at least one memory.
    pub open spec fn wf(&self) -> bool {
        &&& describes(self.data_pointers, self.tables@, self.memories@, self.globals@)
        &&& self.memories@.len() >= 1
        &&& forall|i: int| 0 <= i < self.memories@.len() ==> #[trigger] self.memories@[i].wf()
    }
}

/// Describes the given buffers.
fn data_pointers_of(tables: &Vec<Vec<u64>>, memories: &Vec<LinearMemory>, globals: &Vec<u8>) -> (r: DataPointers)
    ensures
        describes(r, tables@, memories@, globals@),
{
    let mut ts: Vec<BufferRef> = Vec::new();
    let mut i: usize = 0;
    while i < tables.len()
        invariant
            i <= tables@.len(),
            ts@ == Seq::new(i as nat, |k: int| BufferRef { generation: 0, len: tables@[k]@.len() as usize }),
        decreases tables@.len() - i,
    {
        ts.push(BufferRef { generation: 0, len: tables[i].len() });
        i = i + 1;
        assert(ts@ =~= Seq::new(i as nat, |k: int| BufferRef { generation: 0, len: tables@[k]@.len() as usize }));
    }
    let mut ms: Vec<BufferRef> = Vec::new();
    let mut j: usize = 0;
    while j < memories.len()
        invariant
            j <= memories@.len(),
            ms@ == Seq::new(j as nat, |k: int| memory_ref(memories@[k])),
        decreases memories@.len() - j,
    {
        ms.push(BufferRef { generation: memories[j].buffer_generation(), len: memories[j].byte_len() });
        j = j + 1;
        assert(ms@ =~= Seq::new(j as nat, |k: int| memory_ref(memories@[k])));
    }
    DataPointers { tables: ts, memories: ms, globals: BufferRef { generation: 0, len: globals.len() } }
}

/// The entry exported under `name`; a later export hides an earlier one.
fn find_export(exports: &Vec<(String, ExportIndex)>, name: &String) -> (r: Option<ExportIndex>)
    ensures
        r == export_lookup(exports@, name@),
{
    let mut i: usize = exports.len();
    assert(exports@.subrange(0, i as int) =~= exports@);
    while i > 0
        invariant
            i <= exports@.len(),
            export_lookup(exports@, name@) == export_lookup(exports@.subrange(0, i as int), name@),
        decreases i,
    {
        assert(exports@.subrange(0, i as int).drop_last() =~= exports@.subrange(0, i - 1));
        if exports[i - 1].0 == *name {
            return Some(exports[i - 1].1);
        }
        i = i - 1;
    }
    None
}

/// Code buffers holding a copy of each function's code, and the relocation
/// lists that go with them.
fn split_functions(fs: &Vec<CompiledFunction>) -> (r: (Vec<CodeBuffer>, Vec<Vec<Relocation>>))
    ensures
        r.0@.len() == fs@.len(),
        r.1@.len() == fs@.len(),
        addresses(r.0@) == local_addresses(fs@),
        forall|i: int|
            0 <= i < fs@.len() ==> r.0@[i].code@ == (#[trigger] fs@[i]).code@ && r.1@[i]@
                == fs@[i].relocations@,
{
    let mut code: Vec<CodeBuffer> = Vec::new();
    let mut relocs: Vec<Vec<Relocation>> = Vec::new();
    let mut i: usize = 0;
    while i < fs.len()
        invariant
            i <= fs@.len(),
            code@.len() == i,
            relocs@.len() == i,
            addresses(code@) == local_addresses(fs@.subrange(0, i as int)),
            forall|k: int|
                0 <= k < i ==> (#[trigger] code@[k]).code@ == fs@[k].code@ && relocs@[k]@
                    == fs@[k].relocations@,
        decreases fs@.len() - i,
    {
        let f = &fs[i];
        let c = f.code.clone();
        assert(c@ =~= f.code@);
        let rs = f.relocations.clone();
        assert(rs@ =~= f.relocations@);
        let ghost before = code@;
        code.push(CodeBuffer { code: c, address: f.address });
        relocs.push(rs);
        assert forall|k: int| 0 <= k < i + 1 implies #[trigger] addresses(code@)[k] == local_addresses(
            fs@.subrange(0, i + 1),
        )[k] by {
            if k < i {
                assert(code@[k] == before[k]);
                assert(addresses(before)[k] == local_addresses(fs@.subrange(0, i as int))[k]);
            }
        }
        i = i + 1;
        assert(addresses(code@) =~= local_addresses(fs@.subrange(0, i as int)));
    }
    assert(fs@.subrange(0, i as int) =~= fs@);
    let r = (code, relocs);
    assert forall|k: int| 0 <= k < fs@.len() implies r.0@[k].code@ == (#[trigger] fs@[k]).code@
        && r.1@[k]@ == fs@[k].relocations@ by {
        assert(r.0@[k] == code@[k]);
    }
    r
}

impl Instance {
    /// Instantiates `module`: binds its imports, links its code, and builds
    /// its tables, memories and globals, in that order. The first stage that
    /// fails decides the error, and no instance is returned.
    pub fn new(
        module: &Module,
        import_object: &ImportObject,
        options: InstanceOptions,
        runtime: &RuntimeEntries,
    ) -> (r: Result<Instance, ErrorKind>)
        ensures
            ({
                let imports = bound_imports(*module, *import_object, options, *runtime);
                let locals = local_addresses(module.functions@);
                &&& r is Ok <==> {
                    &&& imports_resolved(*module, *import_object, options, *runtime)
                    &&& links(*module, imports, *runtime)
                    &&& tables_after(module.tables@, module.table_elements@, imports, locals) is Ok
                    &&& memories_after(module.memories@, module.data_initializers@) is Ok
                    &&& globals_after(module.globals@) is Ok
                }
                &&& r matches Ok(inst) ==> {
                    &&& inst.wf()
                    &&& inst.import_functions@ == imports
                    &&& addresses(inst.functions@) == locals
                    &&& forall|i: int|
                        0 <= i < module.functions.len() ==> linked(*module, imports, *runtime, i)
                            == Ok::<Seq<u8>, ErrorKind>(#[trigger] inst.functions@[i].code@)
                    &&& Ok::<Seq<Seq<u64>>, ErrorKind>(tables_view(inst.tables@)) == tables_after(
                        module.tables@,
                        module.table_elements@,
                        imports,
                        locals,
                    )
                    &&& Ok::<Seq<Seq<u8>>, ErrorKind>(memories_view(inst.memories@))
                        == memories_after(module.memories@, module.data_initializers@)
                    &&& inst.memories@.len() == effective_memories(module.memories@).len()
                    &&& forall|i: int|
                        0 <= i < inst.memories@.len() ==> {
                            &&& (#[trigger] inst.memories@[i]).pages() == effective_memories(
                                module.memories@,
                            )[i].pages_count
                            &&& inst.memories@[i].maximum_pages() == effective_memories(
                                module.memories@,
                            )[i].maximum
                        }
                    &&& Ok::<Seq<u8>, ErrorKind>(inst.globals@) == globals_after(module.globals@)
                    &&& inst.start_func == start_of(*module)
                }
                &&& r matches Err(e) ==> {
                    &&& !imports_resolved(*module, *import_object, options, *runtime) ==> exists|j: int|
                        0 <= j < module.imported_funcs.len() && #[trigger] bound_address(
                            *import_object,
                            module.imported_funcs@[j].0@,
                            module.imported_funcs@[j].1@,
                            options.mock_missing_imports,
                            runtime.mock_import,
                        ) is None && (e matches ErrorKind::MissingImport { module: mn, field: f }
                            && mn@ == module.imported_funcs@[j].0@ && f@
                            == module.imported_funcs@[j].1@) && forall|k: int|
                            0 <= k < j ==> #[trigger] bound_address(
                                *import_object,
                                module.imported_funcs@[k].0@,
                                module.imported_funcs@[k].1@,
                                options.mock_missing_imports,
                                runtime.mock_import,
                            ) is Some
                    &&& imports_resolved(*module, *import_object, options, *runtime) && !links(
                        *module,
                        imports,
                        *runtime,
                    ) ==> exists|j: int|
                        0 <= j < module.functions.len() && #[trigger] linked(
                            *module,
                            imports,
                            *runtime,
                            j,
                        ) == Err::<Seq<u8>, ErrorKind>(e) && forall|k: int|
                            0 <= k < j ==> #[trigger] linked(*module, imports, *runtime, k) is Ok
                    &&& imports_resolved(*module, *import_object, options, *runtime) && links(
                        *module,
                        imports,
                        *runtime,
                    ) ==> {
                        match tables_after(module.tables@, module.table_elements@, imports, locals) {
                            Err(te) => e == te,
                            Ok(_) => match memories_after(module.memories@, module.data_initializers@) {
                                Err(me) => e == me,
                                Ok(_) => globals_after(module.globals@) == Err::<Seq<u8>, ErrorKind>(e),
                            },
                        }
                    }
                }
            }),
    {
        let ghost imports_spec = bound_imports(*module, *import_object, options, *runtime);
        let ghost locals = local_addresses(module.functions@);
        let import_functions = match bind_imports(
            &module.imported_funcs,
            import_object,
            options.mock_missing_imports,
            runtime.mock_import,
        ) {
            Ok(v) => v,
            Err(e) => {
                return Err(e);
            },
        };
        assert(import_functions@ =~= imports_spec);
        let (mut functions, relocations) = split_functions(&module.functions);
        let ghost unlinked = functions@;
        match link(&mut functions, &relocations, &import_functions, runtime) {
            Ok(()) => {},
            Err(e) => {
                proof {
                    let j = choose|j: int|
                        0 <= j < unlinked.len() && #[trigger] patched_all(
                            unlinked[j].code@,
                            unlinked[j].address,
                            relocations@[j]@,
                            import_functions@,
                            addresses(unlinked),
                            *runtime,
                            j as usize,
                        ) == Err::<Seq<u8>, ErrorKind>(e) && forall|k: int|
                            0 <= k < j ==> #[trigger] patched_all(
                                unlinked[k].code@,
                                unlinked[k].address,
                                relocations@[k]@,
                                import_functions@,
                                addresses(unlinked),
                                *runtime,
                                k as usize,
                            ) is Ok;
                    assert(unlinked[j].address == addresses(unlinked)[j]);
                    assert(linked(*module, imports_spec, *runtime, j) == Err::<Seq<u8>, ErrorKind>(e));
                    assert forall|k: int| 0 <= k < j implies #[trigger] linked(
                        *module,
                        imports_spec,
                        *runtime,
                        k,
                    ) is Ok by {
                        assert(unlinked[k].address == addresses(unlinked)[k]);
                        assert(patched_all(
                            unlinked[k].code@,
                            unlinked[k].address,
                            relocations@[k]@,
                            import_functions@,
                            addresses(unlinked),
                            *runtime,
                            k as usize,
                        ) is Ok);
                    }
                }
                return Err(e);
            },
        }
        assert forall|i: int| 0 <= i < module.functions.len() implies linked(
            *module,
            imports_spec,
            *runtime,
            i,
        ) == Ok::<Seq<u8>, ErrorKind>(#[trigger] functions@[i].code@) by {
            assert(unlinked[i].address == addresses(unlinked)[i]);
            assert(patched_all(
                unlinked[i].code@,
                unlinked[i].address,
                relocations@[i]@,
                import_functions@,
                addresses(unlinked),
                *runtime,
                i as usize,
            ) == Ok::<Seq<u8>, ErrorKind>(functions@[i].code@));
        }
        assert forall|i: int| 0 <= i < module.functions.len() implies #[trigger] linked(
            *module,
            imports_spec,
            *runtime,
            i,
        ) is Ok by {
            assert(functions@[i].code@ == functions@[i].code@);
        }
        let tables = match build_tables(&module.tables, &module.table_elements, &import_functions, &functions) {
            Ok(t) => t,
            Err(e) => {
                return Err(e);
            },
        };
        let memories = match build_memories(&module.memories, &module.data_initializers) {
            Ok(m) => m,
            Err(e) => {
                return Err(e);
            },
        };
        let globals = match build_globals(&module.globals) {
            Ok(g) => g,
            Err(e) => {
                return Err(e);
            },
        };
        let start_func = match module.start_func {
            Some(f) => Some(f),
            None => {
                let main_name: String = "main".to_owned();
                proof {
                    reveal_strlit("main");
                }
                match find_export(&module.exports, &main_name) {
                    Some(ExportIndex::Function(f)) => Some(f),
                    _ => None,
                }
            },
        };
        let data_pointers = data_pointers_of(&tables, &memories, &globals);
        assert(addresses(functions@) == locals);
        assert(import_functions@ == imports_spec);
        assert(start_func == start_of(*module));
        assert(imports_resolved(*module, *import_object, options, *runtime));
        assert(links(*module, imports_spec, *runtime));
        let ghost eff = effective_memories(module.memories@);
        assert forall|i: int| 0 <= i < memories@.len() implies {
            &&& (#[trigger] memories@[i]).pages() == eff[i].pages_count
            &&& memories@[i].maximum_pages() == eff[i].maximum
            &&& memories@[i].wf()
        } by {
            assert(memories@[i].wf());
        }
        Ok(Instance {
            data_pointers,
            tables: Arc::new(tables),
            memories: Arc::new(memories),
            globals,
            functions,
            import_functions,
            start_func,
        })
    }

    /// Exclusive access to memory `memory_index`. Fails with `MemoryShared`,
    /// changing nothing, while a clone of this instance shares the memories.
    /// After changing the memory through the borrow, call `publish`.
    pub fn memory_mut(&mut self, memory_index: usize) -> (r: Result<&mut LinearMemory, ErrorKind>)
        ensures
            memory_index >= old(self).memories@.len() ==> r is Err,
            match r {
                Ok(m) => {
                    &&& memory_index < old(self).memories@.len()
                    &&& *m == old(self).memories@[memory_index as int]
                    &&& final(self).memories@ == old(self).memories@.update(memory_index as int, *final(m))
                    &&& final(self).data_pointers == old(self).data_pointers
                    &&& final(self).tables == old(self).tables
                    &&& final(self).globals == old(self).globals
                    &&& final(self).functions == old(self).functions
                    &&& final(self).import_functions == old(self).import_functions
                    &&& final(self).start_func == old(self).start_func
                },
                Err(e) => {
                    &&& e == ErrorKind::MemoryShared || (e == ErrorKind::NoMemory(memory_index)
                        && memory_index >= old(self).memories@.len())
                    &&& *final(self) == *old(self)
                },
            },
    {
        match arc_get_mut(&mut self.memories) {
            None => Err(ErrorKind::MemoryShared),
            Some(ms) => {
                if memory_index < ms.len() {
                    Ok(&mut ms[memory_index])
                } else {
                    Err(ErrorKind::NoMemory(memory_index))
                }
            },
        }
    }

    /// Recomputes the published pointers from the current buffers.
    pub fn publish(&mut self)
        ensures
            describes(final(self).data_pointers, final(self).tables@, final(self).memories@, final(self).globals@),
            final(self).tables == old(self).tables,
            final(self).memories == old(self).memories,
            final(self).globals == old(self).globals,
            final(self).functions == old(self).functions,
            final(self).import_functions == old(self).import_functions,
            final(self).start_func == old(self).start_func,
    {
        self.data_pointers = data_pointers_of(&self.tables, &self.memories, &self.globals);
    }

    /// A new handle to the memories, shared with this instance.
    pub fn memories(&self) -> (r: Arc<Vec<LinearMemory>>)
        ensures
            r@ == self.memories@,
    {
        arc_share(&self.memories)
    }

    /// The address of function `func_index`, imported or local.
    pub fn get_function_pointer(&self, func_index: FunctionIndex) -> (r: Option<u64>)
        ensures
            r == function_address(self.import_functions@, addresses(self.functions@), func_index.pos()),
    {
        get_function_addr(func_index, &self.import_functions, &self.functions)
    }

    /// The address to call to start the instance, if it has a start function.
    pub fn start(&self) -> (r: Option<u64>)
        ensures
            r == match self.start_func {
                Some(f) => function_address(self.import_functions@, addresses(self.functions@), f.pos()),
                None => None,
            },
    {
        match self.start_func {
            Some(f) => get_function_addr(f, &self.import_functions, &self.functions),
            None => None,
        }
    }

    /// A copy of `len` bytes of memory `memory_index` from `address` on;
    /// `None` where there is no such memory or the range reaches past its end.
    pub fn inspect_memory(&self, memory_index: usize, address: usize, len: usize) -> (r: Option<Vec<u8>>)
        ensures
            r is Some <==> memory_index < self.memories@.len() && address + len
                <= self.memories@[memory_index as int].bytes().len(),
            r matches Some(v) ==> v@ == self.memories@[memory_index as int].bytes().subrange(
                address as int,
                address + len,
            ),
    {
        if memory_index >= self.memories.len() {
            return None;
        }
        self.memories[memory_index].read_bytes(address, len)
    }

    /// A new instance sharing this one's memories and tables, with its own
    /// copy of the globals and the code, and its own published pointers.
    pub fn share(&self) -> (r: Instance)
        ensures
            r.memories@ == self.memories@,
            r.tables@ == self.tables@,
            r.globals@ == self.globals@,
            r.import_functions@ == self.import_functions@,
            addresses(r.functions@) == addresses(self.functions@),
            r.functions@.len() == self.functions@.len(),
            forall|i: int|
                0 <= i < self.functions@.len() ==> (#[trigger] r.functions@[i]).code@
                    == self.functions@[i].code@,
            r.start_func == self.start_func,
            describes(r.data_pointers, r.tables@, r.memories@, r.globals@),
            self.wf() ==> r.wf(),
    {
        let tables = arc_share(&self.tables);
        let memories = arc_share(&self.memories);
        let globals = self.globals.clone();
        assert(globals@ =~= self.globals@);
        let mut functions: Vec<CodeBuffer> = Vec::new();
        let mut i: usize = 0;
        while i < self.functions.len()
            invariant
                i <= self.functions@.len(),
                functions@.len() == i,
                forall|k: int|
                    0 <= k < i ==> (#[trigger] functions@[k]).code@ == self.functions@[k].code@
                        && functions@[k].address == self.functions@[k].address,
            decreases self.functions@.len() - i,
        {
            let c = self.functions[i].code.clone();
            assert(c@ =~= self.functions@[i as int].code@);
            functions.push(CodeBuffer { code: c, address: self.functions[i].address });
            i = i + 1;
        }
        assert(addresses(functions@) =~= addresses(self.functions@));
        let import_functions = self.import_functions.clone();
        assert(import_functions@ =~= self.import_functions@);
        let data_pointers = data_pointers_of(&tables, &memories, &globals);
        Instance { data_pointers, tables, memories, globals, functions, import_functions, start_func: self.start_func }
    }
}

impl Clone for Instance {
    /// A new instance sharing this one's memories and tables, with its own
    /// copy of the globals and the code, and its own published pointers.
    fn clone(&self) -> (r: Self)
        ensures
            r.memories@ == self.memories@,
            r.tables@ == self.tables@,
            r.globals@ == self.globals@,
            r.import_functions@ == self.import_functions@,
            addresses(r.functions@) == addresses(self.functions@),
            r.functions@.len() == self.functions@.len(),
            forall|i: int|
                0 <= i < self.functions@.len() ==> (#[trigger] r.functions@[i]).code@
                    == self.functions@[i].code@,
            r.start_func == self.start_func,
            describes(r.data_pointers, r.tables@, r.memories@, r.globals@),
            self.wf() ==> r.wf(),
    {
        self.share()
    }
}

/// Runtime entry point that generated code calls to grow memory
/// `memory_index` by `size` pages. Returns the page count before the growth,
/// or -1 where the memory may not grow that far. Only the default memory 0
/// is supported. The published pointers are renewed before returning.
pub fn grow_memory(size: u32, memory_index: u32, instance: &mut Instance) -> (r: Result<i32, ErrorKind>)
    requires
        old(instance).wf(),
    ensures
        final(instance).wf(),
        final(instance).tables == old(instance).tables,
        final(instance).globals == old(instance).globals,
        final(instance).functions == old(instance).functions,
        final(instance).import_functions == old(instance).import_functions,
        final(instance).start_func == old(instance).start_func,
        memory_index != 0 ==> r == Err::<i32, ErrorKind>(ErrorKind::UnsupportedMemoryIndex(memory_index)),
        r is Err ==> final(instance).memories@ == old(instance).memories@,
        memory_index == 0 && r is Err ==> r == Err::<i32, ErrorKind>(ErrorKind::MemoryShared),
        r matches Ok(v) ==> ({
            let m0 = old(instance).memories@[0];
            let m1 = final(instance).memories@[0];
            &&& memory_index == 0
            &&& final(instance).memories@.len() == old(instance).memories@.len()
            &&& forall|i: int|
                1 <= i < old(instance).memories@.len() ==> #[trigger] final(instance).memories@[i]
                    == old(instance).memories@[i]
            &&& if m0.pages() + size > page_limit(m0.maximum_pages()) {
                &&& v == -1
                &&& m1 == m0
            } else {
                &&& v == m0.pages()
                &&& m1.pages() == m0.pages() + size
                &&& m1.bytes() == m0.bytes() + zeros((size * WASM_PAGE_SIZE) as nat)
                &&& m1.maximum_pages() == m0.maximum_pages()
                &&& m1.generation() != m0.generation()
                &&& final(instance).data_pointers.memories@[0] != old(instance).data_pointers.memories@[0]
            }
        }),
{
    if memory_index != 0 {
        return Err(ErrorKind::UnsupportedMemoryIndex(memory_index));
    }
    let ghost m0 = instance.memories@[0];
    proof {
        assert(m0.wf());
    }
    let previous = match instance.memory_mut(0) {
        Ok(m) => m.grow(size),
        Err(e) => {
            return Err(e);
        },
    };
    instance.publish();
    assert(instance.memories@[0].wf());
    assert forall|i: int| 0 <= i < instance.memories@.len() implies #[trigger] instance.memories@[i].wf() by {
        if i != 0 {
            assert(instance.memories@[i] == old(instance).memories@[i]);
        }
    }
    match previous {
        Some(p) => Ok(p as i32),
        None => Ok(-1),
    }
}

/// Runtime entry point that generated code calls for the page count of
/// memory `memory_index`.
pub fn current_memory(memory_index: u32, instance: &Instance) -> (r: Result<u32, ErrorKind>)
    ensures
        match r {
            Ok(p) => memory_index < instance.memories@.len() && p
                == instance.memories@[memory_index as int].pages(),
            Err(e) => memory_index >= instance.memories@.len() && e == ErrorKind::NoMemory(
                memory_index as usize,
            ),
        },
{
    if (memory_index as usize) < instance.memories.len() {
        Ok(instance.memories[memory_index as usize].current_size())
    } else {
        Err(ErrorKind::NoMemory(memory_index as usize))
    }
}


/// A module with no imported and no local functions, whose tables, memories
/// and globals can be built, passes every stage of instantiation: nothing
/// is bound and nothing is linked.
pub proof fn lemma_empty_module_instantiates(
    m: Module,
    obj: ImportObject,
    options: InstanceOptions,
    rt: RuntimeEntries,
)
    requires
        m.imported_funcs.len() == 0,
        m.functions.len() == 0,
        m.table_elements.len() == 0,
        memories_after(m.memories@, m.data_initializers@) is Ok,
        globals_after(m.globals@) is Ok,
    ensures
        imports_resolved(m, obj, options, rt),
        bound_imports(m, obj, options, rt) == Seq::<u64>::empty(),
        links(m, bound_imports(m, obj, options, rt), rt),
        local_addresses(m.functions@) == Seq::<u64>::empty(),
        tables_after(
            m.tables@,
            m.table_elements@,
            bound_imports(m, obj, options, rt),
            local_addresses(m.functions@),
        ) is Ok,
{
    assert(bound_imports(m, obj, options, rt) =~= Seq::<u64>::empty());
    assert(local_addresses(m.functions@) =~= Seq::<u64>::empty());
}


/// An imported function that the import object lacks keeps the module from
/// being instantiated unless mocking is on; with mocking on it is bound to
/// the stub.
pub proof fn lemma_missing_import(
    m: Module,
    obj: ImportObject,
    options: InstanceOptions,
    rt: RuntimeEntries,
    j: int,
)
    requires
        0 <= j < m.imported_funcs.len(),
        obj.lookup(m.imported_funcs@[j].0@, m.imported_funcs@[j].1@) is None,
    ensures
        !options.mock_missing_imports ==> !imports_resolved(m, obj, options, rt),
        options.mock_missing_imports ==> bound_imports(m, obj, options, rt)[j] == rt.mock_import,
{
    assert(bound_address(
        obj,
        m.imported_funcs@[j].0@,
        m.imported_funcs@[j].1@,
        options.mock_missing_imports,
        rt.mock_import,
    ) == if options.mock_missing_imports {
        Some(rt.mock_import)
    } else {
        None::<u64>
    });
}


/// With mocking on, every imported function is bound: to the host function
/// offered under its name, else to the stub.
pub proof fn lemma_mocked_imports(
    m: Module,
    obj: ImportObject,
    options: InstanceOptions,
    rt: RuntimeEntries,
)
    requires
        options.mock_missing_imports,
    ensures
        imports_resolved(m, obj, options, rt),
        forall|k: int|
            0 <= k < m.imported_funcs.len() ==> #[trigger] bound_imports(m, obj, options, rt)[k]
                == match obj.lookup(m.imported_funcs@[k].0@, m.imported_funcs@[k].1@) {
                Some(a) => a,
                None => rt.mock_import,
            },
{
}

} // verus!
