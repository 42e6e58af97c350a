use std::sync::Arc;

use wasm_instance::errors::ErrorKind;
use wasm_instance::imports::ImportObject;
use wasm_instance::indexes::{ExportIndex, FunctionIndex, GlobalIndex};
use wasm_instance::init::{DataInitializer, GlobalInit, MemoryDesc, TableElements};
use wasm_instance::instance::{
    current_memory, grow_memory, CompiledFunction, Instance, InstanceOptions, Module,
};
use wasm_instance::reloc::{LibCall, RelocKind, RelocTarget, Relocation, RuntimeEntries};

fn runtime() -> RuntimeEntries {
    RuntimeEntries {
        grow_memory: 0x9000,
        current_memory: 0x9100,
        ceil_f32: 0x9200,
        floor_f32: 0x9210,
        trunc_f32: 0x9220,
        nearest_f32: 0x9230,
        ceil_f64: 0x9240,
        floor_f64: 0x9250,
        trunc_f64: 0x9260,
        nearest_f64: 0x9270,
        mock_import: 0x9300,
    }
}

fn empty_module() -> Module {
    Module {
        imported_funcs: Vec::new(),
        functions: Vec::new(),
        tables: Vec::new(),
        table_elements: Vec::new(),
        memories: Vec::new(),
        data_initializers: Vec::new(),
        globals: Vec::new(),
        start_func: None,
        exports: Vec::new(),
    }
}

fn function(address: u64, len: usize, relocations: Vec<Relocation>) -> CompiledFunction {
    CompiledFunction { code: vec![0u8; len], address, relocations }
}

fn strict() -> InstanceOptions {
    InstanceOptions { mock_missing_imports: false }
}

fn build(module: &Module) -> Result<Instance, ErrorKind> {
    Instance::new(module, &ImportObject::new(), strict(), &runtime())
}

#[test]
fn empty_module_instantiates() {
    let inst = build(&empty_module()).unwrap();
    assert!(inst.functions.is_empty());
    assert!(inst.import_functions.is_empty());
    assert_eq!(inst.memories.len(), 1);
    assert_eq!(inst.memories[0].current_size(), 0);
    assert_eq!(inst.data_pointers.memories.len(), 1);
    assert_eq!(inst.data_pointers.memories[0].len, 0);
    assert_eq!(inst.start(), None);
}

#[test]
fn abs8_relocation_writes_target_plus_addend() {
    let mut m = empty_module();
    let reloc = Relocation {
        kind: RelocKind::Abs8,
        offset: 3,
        addend: 8,
        target: RelocTarget::Function(FunctionIndex::new(1)),
    };
    m.functions.push(function(0x1000, 16, vec![reloc]));
    m.functions.push(function(0x2000, 4, Vec::new()));
    let inst = build(&m).unwrap();
    let code = &inst.functions[0].code;
    let mut bytes = [0u8; 8];
    bytes.copy_from_slice(&code[3..11]);
    assert_eq!(u64::from_le_bytes(bytes), 0x2008);
    assert_eq!(code[0..3], [0, 0, 0]);
    assert_eq!(code[11..16], [0, 0, 0, 0, 0]);
}

#[test]
fn pcrel4_relocation_writes_displacement() {
    let mut m = empty_module();
    let reloc = Relocation {
        kind: RelocKind::X86PCRel4,
        offset: 2,
        addend: -4,
        target: RelocTarget::Function(FunctionIndex::new(1)),
    };
    m.functions.push(function(0x1000, 8, vec![reloc]));
    m.functions.push(function(0x900, 4, Vec::new()));
    let inst = build(&m).unwrap();
    let code = &inst.functions[0].code;
    let mut bytes = [0u8; 4];
    bytes.copy_from_slice(&code[2..6]);
    assert_eq!(i32::from_le_bytes(bytes), 0x900 - 0x1002 - 4);
}

#[test]
fn pcrel4_out_of_range_is_rejected() {
    let mut m = empty_module();
    let reloc = Relocation {
        kind: RelocKind::X86PCRel4,
        offset: 0,
        addend: 0,
        target: RelocTarget::Function(FunctionIndex::new(1)),
    };
    m.functions.push(function(0x1000, 8, vec![reloc]));
    m.functions.push(function(0x1_0000_1000, 4, Vec::new()));
    assert!(matches!(
        build(&m),
        Err(ErrorKind::RelocationOverflow { function_index: 0, offset: 0 })
    ));
}

#[test]
fn relocation_to_runtime_entries() {
    let mut m = empty_module();
    let grow = Relocation { kind: RelocKind::Abs8, offset: 0, addend: 0, target: RelocTarget::GrowMemory };
    let ceil = Relocation {
        kind: RelocKind::Abs8,
        offset: 8,
        addend: 0,
        target: RelocTarget::LibCall(LibCall::CeilF64),
    };
    m.functions.push(function(0x1000, 16, vec![grow, ceil]));
    let inst = build(&m).unwrap();
    let code = &inst.functions[0].code;
    let mut a = [0u8; 8];
    a.copy_from_slice(&code[0..8]);
    assert_eq!(u64::from_le_bytes(a), 0x9000);
    a.copy_from_slice(&code[8..16]);
    assert_eq!(u64::from_le_bytes(a), 0x9240);
}

#[test]
fn unsupported_relocations_are_errors() {
    let mut m = empty_module();
    let r = Relocation { kind: RelocKind::Abs4, offset: 0, addend: 0, target: RelocTarget::GrowMemory };
    m.functions.push(function(0x1000, 8, vec![r]));
    assert!(matches!(build(&m), Err(ErrorKind::UnsupportedRelocKind(RelocKind::Abs4))));

    let mut m = empty_module();
    let r = Relocation {
        kind: RelocKind::Abs8,
        offset: 0,
        addend: 0,
        target: RelocTarget::LibCall(LibCall::Memcpy),
    };
    m.functions.push(function(0x1000, 8, vec![r]));
    assert!(matches!(build(&m), Err(ErrorKind::UnsupportedLibCall(LibCall::Memcpy))));

    let mut m = empty_module();
    let r = Relocation { kind: RelocKind::Abs8, offset: 4, addend: 0, target: RelocTarget::GrowMemory };
    m.functions.push(function(0x1000, 8, vec![r]));
    assert!(matches!(
        build(&m),
        Err(ErrorKind::RelocationOutOfBounds { function_index: 0, offset: 4 })
    ));

    let mut m = empty_module();
    let r = Relocation {
        kind: RelocKind::Abs8,
        offset: 0,
        addend: 0,
        target: RelocTarget::Function(FunctionIndex::new(5)),
    };
    m.functions.push(function(0x1000, 8, vec![r]));
    assert!(matches!(build(&m), Err(ErrorKind::UnresolvedFunction(f)) if f.index() == 5));
}

#[test]
fn table_segment_fills_slots() {
    let mut m = empty_module();
    for k in 0..3u64 {
        m.functions.push(function(0x1000 * (k + 1), 4, Vec::new()));
    }
    m.tables.push(10);
    m.table_elements.push(TableElements {
        table_index: 0,
        base: None,
        offset: 2,
        elements: vec![FunctionIndex::new(0), FunctionIndex::new(1), FunctionIndex::new(2)],
    });
    let inst = build(&m).unwrap();
    assert_eq!(inst.tables[0], vec![0, 0, 0x1000, 0x2000, 0x3000, 0, 0, 0, 0, 0]);
    assert_eq!(inst.data_pointers.tables[0].len, 10);
}

#[test]
fn table_segment_past_end_is_rejected() {
    let mut m = empty_module();
    m.functions.push(function(0x1000, 4, Vec::new()));
    m.tables.push(10);
    m.table_elements.push(TableElements {
        table_index: 0,
        base: None,
        offset: 8,
        elements: vec![FunctionIndex::new(0), FunctionIndex::new(0), FunctionIndex::new(0)],
    });
    assert!(matches!(build(&m), Err(ErrorKind::TableInitOutOfBounds { segment: 0 })));

    m.table_elements[0].offset = 0;
    m.table_elements[0].base = Some(GlobalIndex::new(0));
    assert!(matches!(build(&m), Err(ErrorKind::UnsupportedElementBase { segment: 0 })));
}

#[test]
fn missing_import_is_a_link_error() {
    let mut m = empty_module();
    m.imported_funcs.push(("env".to_string(), "print".to_string()));
    match build(&m) {
        Err(ErrorKind::MissingImport { module, field }) => {
            assert_eq!(module, "env");
            assert_eq!(field, "print");
        }
        other => panic!("unexpected {:?}", other.map(|_| ())),
    }
}

#[test]
fn missing_import_is_mocked_when_asked() {
    let mut m = empty_module();
    m.imported_funcs.push(("env".to_string(), "print".to_string()));
    let options = InstanceOptions { mock_missing_imports: true };
    let inst = Instance::new(&m, &ImportObject::new(), options, &runtime()).unwrap();
    assert_eq!(inst.import_functions, vec![0x9300]);
    assert_eq!(inst.get_function_pointer(FunctionIndex::new(0)), Some(0x9300));
}

#[test]
fn provided_imports_come_before_locals() {
    let mut m = empty_module();
    m.imported_funcs.push(("env".to_string(), "a".to_string()));
    m.functions.push(function(0x5000, 4, Vec::new()));
    let mut obj = ImportObject::new();
    obj.set("env".to_string(), "a".to_string(), 0x111);
    obj.set("env".to_string(), "a".to_string(), 0x222);
    assert_eq!(obj.get(&"env".to_string(), &"a".to_string()), Some(0x222));
    assert_eq!(obj.get(&"env".to_string(), &"b".to_string()), None);
    let inst = Instance::new(&m, &obj, strict(), &runtime()).unwrap();
    assert_eq!(inst.get_function_pointer(FunctionIndex::new(0)), Some(0x222));
    assert_eq!(inst.get_function_pointer(FunctionIndex::new(1)), Some(0x5000));
    assert_eq!(inst.get_function_pointer(FunctionIndex::new(2)), None);
}

#[test]
fn start_falls_back_to_main_export() {
    let mut m = empty_module();
    m.functions.push(function(0x1000, 4, Vec::new()));
    m.functions.push(function(0x2000, 4, Vec::new()));
    m.exports.push(("main".to_string(), ExportIndex::Function(FunctionIndex::new(1))));
    let first = build(&m).unwrap();
    let second = build(&m).unwrap();
    assert_eq!(first.start_func, Some(FunctionIndex::new(1)));
    assert_eq!(first.start(), Some(0x2000));
    assert_eq!(second.start(), first.start());
    assert_eq!(second.functions[1].code, first.functions[1].code);

    m.start_func = Some(FunctionIndex::new(0));
    assert_eq!(build(&m).unwrap().start(), Some(0x1000));
}

#[test]
fn memories_and_data_segments() {
    let mut m = empty_module();
    m.memories.push(MemoryDesc { pages_count: 1, maximum: Some(3) });
    m.data_initializers.push(DataInitializer {
        memory_index: 0,
        base: None,
        offset: 10,
        data: vec![1, 2, 3],
    });
    let inst = build(&m).unwrap();
    assert_eq!(inst.memories[0].byte_len(), 65536);
    assert_eq!(inst.inspect_memory(0, 9, 5), Some(vec![0, 1, 2, 3, 0]));
    assert_eq!(inst.inspect_memory(0, 65535, 2), None);
    assert_eq!(inst.inspect_memory(1, 0, 1), None);
    assert_eq!(current_memory(0, &inst).unwrap(), 1);
    assert!(matches!(current_memory(1, &inst), Err(ErrorKind::NoMemory(1))));

    m.data_initializers[0].offset = 65534;
    assert!(matches!(build(&m), Err(ErrorKind::DataInitOutOfBounds { segment: 0 })));

    m.memories[0] = MemoryDesc { pages_count: 4, maximum: Some(3) };
    assert!(matches!(build(&m), Err(ErrorKind::InvalidMemoryLimits { memory_index: 0 })));
}

#[test]
fn globals_are_eight_byte_slots() {
    let mut m = empty_module();
    m.globals.push(GlobalInit::I32Const(-1));
    m.globals.push(GlobalInit::I64Const(0x0102030405060708));
    m.globals.push(GlobalInit::F32Const(1.5f32.to_bits()));
    m.globals.push(GlobalInit::F64Const((-2.0f64).to_bits()));
    let inst = build(&m).unwrap();
    assert_eq!(inst.globals.len(), 32);
    assert_eq!(inst.globals[0..8], [0xff; 8]);
    assert_eq!(inst.globals[8..16], [8, 7, 6, 5, 4, 3, 2, 1]);
    assert_eq!(inst.globals[16..24], [0x00, 0x00, 0xc0, 0x3f, 0, 0, 0, 0]);
    let mut slot = [0u8; 8];
    slot.copy_from_slice(&inst.globals[24..32]);
    assert_eq!(f64::from_bits(u64::from_le_bytes(slot)), -2.0);
    assert_eq!(inst.data_pointers.globals.len, 32);

    m.globals.push(GlobalInit::GetGlobal(GlobalIndex::new(0)));
    m.globals.push(GlobalInit::Import);
    assert!(matches!(build(&m), Err(ErrorKind::UnsupportedGlobalInit { global_index: 4 })));
}

#[test]
fn grow_memory_respects_maximum() {
    let mut m = empty_module();
    m.memories.push(MemoryDesc { pages_count: 1, maximum: Some(2) });
    let mut inst = build(&m).unwrap();
    assert_eq!(grow_memory(2, 0, &mut inst).unwrap(), -1);
    assert_eq!(inst.memories[0].current_size(), 1);
    assert_eq!(grow_memory(1, 0, &mut inst).unwrap(), 1);
    assert_eq!(inst.memories[0].current_size(), 2);
    assert_eq!(inst.memories[0].byte_len(), 2 * 65536);
    assert!(matches!(grow_memory(1, 1, &mut inst), Err(ErrorKind::UnsupportedMemoryIndex(1))));
}

#[test]
fn grow_memory_republishes_pointers() {
    let mut inst = build(&empty_module()).unwrap();
    let before = inst.data_pointers.memories[0];
    assert_eq!(grow_memory(3, 0, &mut inst).unwrap(), 0);
    let after = inst.data_pointers.memories[0];
    assert_ne!(after.generation, before.generation);
    assert_eq!(after.generation, inst.memories[0].buffer_generation());
    assert_eq!(after.len, 3 * 65536);
    assert!(inst.memories[0].as_slice().iter().all(|b| *b == 0));
}

#[test]
fn shared_memories_refuse_mutation() {
    let mut inst = build(&empty_module()).unwrap();
    let copy = inst.clone();
    assert!(Arc::ptr_eq(&copy.memories, &inst.memories));
    assert!(matches!(inst.memory_mut(0), Err(ErrorKind::MemoryShared)));
    assert!(matches!(grow_memory(1, 0, &mut inst), Err(ErrorKind::MemoryShared)));
    let handle = inst.memories();
    drop(copy);
    assert!(matches!(inst.memory_mut(0), Err(ErrorKind::MemoryShared)));
    drop(handle);
    assert!(matches!(inst.memory_mut(7), Err(ErrorKind::NoMemory(7))));
    let mem = inst.memory_mut(0).unwrap();
    assert_eq!(mem.grow(1), Some(0));
    inst.publish();
    assert_eq!(inst.data_pointers.memories[0].len, 65536);
}

#[test]
fn data_segment_with_global_base_is_rejected() {
    let mut m = empty_module();
    m.memories.push(MemoryDesc { pages_count: 1, maximum: None });
    m.data_initializers.push(DataInitializer {
        memory_index: 0,
        base: None,
        offset: 0,
        data: vec![1],
    });
    m.data_initializers.push(DataInitializer {
        memory_index: 0,
        base: Some(GlobalIndex::new(0)),
        offset: 0,
        data: vec![1],
    });
    assert!(matches!(build(&m), Err(ErrorKind::UnsupportedDataBase { segment: 1 })));

    m.data_initializers[1].base = None;
    m.data_initializers[1].memory_index = 1;
    assert!(matches!(build(&m), Err(ErrorKind::DataInitOutOfBounds { segment: 1 })));
}

#[test]
fn later_data_segment_overwrites_earlier() {
    let mut m = empty_module();
    m.memories.push(MemoryDesc { pages_count: 1, maximum: None });
    m.data_initializers.push(DataInitializer { memory_index: 0, base: None, offset: 0, data: vec![1, 1, 1] });
    m.data_initializers.push(DataInitializer { memory_index: 0, base: None, offset: 1, data: vec![2] });
    let inst = build(&m).unwrap();
    assert_eq!(inst.inspect_memory(0, 0, 4), Some(vec![1, 2, 1, 0]));
}

#[test]
fn abs8_negative_result_is_rejected() {
    let mut m = empty_module();
    let r = Relocation { kind: RelocKind::Abs8, offset: 0, addend: -0x9001, target: RelocTarget::GrowMemory };
    m.functions.push(function(0x1000, 8, vec![r]));
    assert!(matches!(
        build(&m),
        Err(ErrorKind::RelocationOverflow { function_index: 0, offset: 0 })
    ));
}

#[test]
fn table_element_naming_no_function_is_rejected() {
    let mut m = empty_module();
    m.tables.push(4);
    m.table_elements.push(TableElements {
        table_index: 0,
        base: None,
        offset: 0,
        elements: vec![FunctionIndex::new(3)],
    });
    assert!(matches!(build(&m), Err(ErrorKind::UnresolvedFunction(f)) if f.index() == 3));

    m.table_elements[0].table_index = 1;
    assert!(matches!(build(&m), Err(ErrorKind::TableInitOutOfBounds { segment: 0 })));
}

#[test]
fn link_errors_come_before_table_errors() {
    let mut m = empty_module();
    m.imported_funcs.push(("env".to_string(), "f".to_string()));
    m.tables.push(1);
    m.table_elements.push(TableElements { table_index: 0, base: None, offset: 5, elements: Vec::new() });
    assert!(matches!(build(&m), Err(ErrorKind::MissingImport { .. })));
}

#[test]
fn later_export_hides_earlier_main() {
    let mut m = empty_module();
    m.functions.push(function(0x1000, 4, Vec::new()));
    m.functions.push(function(0x2000, 4, Vec::new()));
    m.exports.push(("main".to_string(), ExportIndex::Function(FunctionIndex::new(0))));
    m.exports.push(("main".to_string(), ExportIndex::Function(FunctionIndex::new(1))));
    assert_eq!(build(&m).unwrap().start(), Some(0x2000));

    m.exports.push(("main".to_string(), ExportIndex::Memory(wasm_instance::indexes::MemoryIndex::new(0))));
    assert_eq!(build(&m).unwrap().start(), None);
}

#[test]
fn clone_has_its_own_pointers() {
    let inst = build(&empty_module()).unwrap();
    let copy = inst.clone();
    assert_eq!(copy.data_pointers.memories, inst.data_pointers.memories);
    assert_eq!(copy.globals, inst.globals);
    assert!(Arc::ptr_eq(&copy.tables, &inst.tables));
}

#[test]
fn first_missing_import_is_named() {
    let mut m = empty_module();
    m.imported_funcs.push(("env".to_string(), "ok".to_string()));
    m.imported_funcs.push(("env".to_string(), "first".to_string()));
    m.imported_funcs.push(("env".to_string(), "second".to_string()));
    let mut obj = ImportObject::new();
    obj.set("env".to_string(), "ok".to_string(), 0x10);
    match Instance::new(&m, &obj, strict(), &runtime()) {
        Err(ErrorKind::MissingImport { module, field }) => {
            assert_eq!(module, "env");
            assert_eq!(field, "first");
        }
        other => panic!("unexpected {:?}", other.map(|_| ())),
    }
}

#[test]
fn first_function_that_fails_to_link_is_reported() {
    let mut m = empty_module();
    let bad = Relocation { kind: RelocKind::Abs8, offset: 8, addend: 0, target: RelocTarget::GrowMemory };
    m.functions.push(function(0x1000, 8, Vec::new()));
    m.functions.push(function(0x2000, 8, vec![bad]));
    m.functions.push(function(0x3000, 8, vec![bad]));
    assert!(matches!(
        build(&m),
        Err(ErrorKind::RelocationOutOfBounds { function_index: 1, offset: 8 })
    ));
}
