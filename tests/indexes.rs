use wasm_instance::indexes::{FunctionIndex, LocalMemoryIndex, SignatureIndex};
use wasm_instance::section::{CustomSection, CustomSectionProtection, SectionIndex};

#[test]
fn index_round_trips() {
    assert_eq!(FunctionIndex::new(7).index(), 7);
    assert_eq!(FunctionIndex::from_u32(9).as_u32(), 9);
    assert_eq!(LocalMemoryIndex::new(0), LocalMemoryIndex::from_u32(0));
    assert!(SignatureIndex::new(1) < SignatureIndex::new(2));
    assert_eq!(SectionIndex::new(3).index(), 3);
}

#[test]
fn custom_section_holds_bytes() {
    let s = CustomSection { protection: CustomSectionProtection::Read, bytes: vec![1, 2, 3] };
    let t = s.clone();
    assert_eq!(t.bytes, vec![1, 2, 3]);
    assert_eq!(t.protection, CustomSectionProtection::Read);
}
