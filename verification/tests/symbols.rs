use object::{Architecture, Endianness};
use tirc::binary::elf::{Elf, SectionEntry, SectionKind, SymbolEntry, SymbolKind, SymbolScope};
use tirc::binary::symbol::{Symbol, SymbolBuilder, SymbolError, SymbolType};
use tirc::binary::Section;
use tirc::compile;
use tirc::parser::ast::AstNode;
use tirc::parser::table::FunctionTable;
use tirc::riscv::decode::DecodeError;

fn s(text: &str) -> String {
    text.to_string()
}

#[test]
fn table_keeps_the_last_address_of_a_name() {
    let mut table = FunctionTable::new();
    assert_eq!(table.get("f"), None);
    table.insert(s("f"), 4);
    table.insert(s("g"), 8);
    assert_eq!(table.get("f"), Some(4));
    assert_eq!(table.get("g"), Some(8));
    table.insert(s("f"), 12);
    assert_eq!(table.get("f"), Some(12));
    assert_eq!(table.get("g"), Some(8));
    assert_eq!(table.get("F"), None);
    assert_eq!(table.get(""), None);
}

#[test]
fn new_builder_holds_the_empty_symbol() {
    let symbol = SymbolBuilder::new().build();
    assert_eq!(symbol.name, "empty");
    assert_eq!(symbol.symbol_type, SymbolType::Private);
    assert!(symbol.content.is_empty());
    assert!(matches!(symbol.section, Section::Note));
}

#[test]
fn builder_sets_each_field() {
    let symbol = SymbolBuilder::new()
        .set_name(s("start"))
        .set_section(Section::Other(s("init"), None))
        .set_content(vec![1, 2, 3, 4])
        .set_type(SymbolType::Global)
        .build();
    assert_eq!(symbol.name, "start");
    assert_eq!(symbol.symbol_type, SymbolType::Global);
    assert_eq!(symbol.content, vec![1, 2, 3, 4]);
    match symbol.section {
        Section::Other(name, id) => {
            assert_eq!(name, "init");
            assert_eq!(id, None);
        }
        other => panic!("wrong section: {:?}", other),
    }
}

#[test]
fn builder_takes_a_function() {
    let table = FunctionTable::new();
    let function = AstNode::Function {
        name: s("exit"),
        stype: SymbolType::Global,
        body: vec![AstNode::Syscall, AstNode::Ret],
        pc: 0,
    };
    let symbol = SymbolBuilder::new()
        .set_section(Section::Text)
        .from_ast(&function, &table)
        .unwrap()
        .build();
    assert_eq!(symbol.name, "exit");
    assert_eq!(symbol.symbol_type, SymbolType::Global);
    assert_eq!(symbol.content, vec![0x73, 0, 0, 0, 0x67, 0x80, 0, 0]);
    assert!(matches!(symbol.section, Section::Text));
}

#[test]
fn builder_ignores_what_is_no_function() {
    let table = FunctionTable::new();
    let symbol = SymbolBuilder::new()
        .set_name(s("kept"))
        .from_ast(&AstNode::Nop, &table)
        .unwrap()
        .build();
    assert_eq!(symbol.name, "kept");
    assert!(symbol.content.is_empty());
}

#[test]
fn builder_hands_the_error_on() {
    let table = FunctionTable::new();
    let function = AstNode::Function {
        name: s("f"),
        stype: SymbolType::Private,
        body: vec![AstNode::Nop, AstNode::Go { target: s("nowhere"), pc: 4 }],
        pc: 0,
    };
    match SymbolBuilder::new().from_ast(&function, &table) {
        Err(e) => assert_eq!(e, SymbolError::DecodeError(DecodeError::FnNotFound(s("nowhere")))),
        Ok(b) => panic!("built {:?}", b),
    }
    assert_eq!(
        SymbolError::from(DecodeError::FnNotFound(s("x"))),
        SymbolError::DecodeError(DecodeError::FnNotFound(s("x")))
    );
}

fn symbol(name: &str, symbol_type: SymbolType, content: Vec<u8>) -> Symbol {
    Symbol { name: s(name), section: Section::Text, symbol_type, content }
}

#[test]
fn new_plan_is_empty() {
    let elf = Elf::new(Architecture::Riscv64, Endianness::Little);
    assert_eq!(elf.architecture, Architecture::Riscv64);
    assert_eq!(elf.endianness, Endianness::Little);
    assert!(elf.sections.is_empty());
    assert!(elf.symbols.is_empty());
    assert_eq!(elf.text_id, None);
    assert_eq!(elf.current_tvalue, 0);
}

#[test]
fn sections_are_made_under_their_names() {
    let mut elf = Elf::new(Architecture::Riscv64, Endianness::Little);
    elf.create_section(Section::Text);
    elf.create_section(Section::Data);
    elf.create_section(Section::Note);
    elf.create_section(Section::Bss);
    elf.create_section(Section::Other(s("mine"), None));
    let made: Vec<(String, SectionKind)> =
        elf.sections.iter().map(|e| (e.name.clone(), e.kind)).collect();
    assert_eq!(
        made,
        vec![
            (s("text"), SectionKind::Text),
            (s("data"), SectionKind::Data),
            (s("note"), SectionKind::Note),
            (s("bss"), SectionKind::UninitializedData),
            (s("mine"), SectionKind::Unknown),
        ]
    );
    assert_eq!(elf.text_id, Some(4));
    assert!(elf.sections.iter().all(|e| e.pieces.is_empty() && e.align == 1));
}

#[test]
fn symbols_follow_each_other_in_the_text() {
    let mut elf = Elf::new(Architecture::Riscv64, Endianness::Little);
    elf.create_section(Section::Text);
    assert!(elf.has_room(&symbol("a", SymbolType::Private, vec![0; 8])));
    elf.write_section(Section::Text, symbol("main", SymbolType::Global, vec![1; 8]));
    elf.write_section(Section::Text, symbol("helper", SymbolType::Private, vec![2; 12]));
    elf.write_section(Section::Text, symbol("none", SymbolType::Private, vec![]));
    elf.write_section(Section::Text, symbol("last", SymbolType::Global, vec![3; 4]));
    assert_eq!(elf.current_tvalue, 24);
    assert_eq!(elf.text_id, Some(0));
    assert_eq!(
        elf.sections,
        vec![SectionEntry {
            name: s("text"),
            kind: SectionKind::Text,
            align: 4,
            pieces: vec![vec![1; 8], vec![2; 12], vec![], vec![3; 4]],
        }]
    );
    let entry = |name: &str, size: u64, value: u64, global: bool| SymbolEntry {
        section: 0,
        name: s(name),
        kind: SymbolKind::Text,
        size,
        weak: false,
        value,
        scope: if global { SymbolScope::Linkage } else { SymbolScope::Compilation },
        st_info: if global { 0x12 } else { 0x10 },
        st_other: 0,
    };
    assert_eq!(
        elf.symbols,
        vec![
            entry("main", 8, 0, true),
            entry("helper", 12, 8, false),
            entry("none", 0, 20, false),
            entry("last", 4, 20, true),
        ]
    );
}

#[test]
fn text_section_is_made_when_there_is_none() {
    let mut elf = Elf::new(Architecture::Riscv64, Endianness::Little);
    elf.write_section(Section::Text, symbol("f", SymbolType::Private, vec![9; 4]));
    assert_eq!(elf.text_id, Some(0));
    assert_eq!(elf.sections.len(), 1);
    assert_eq!(elf.sections[0].name, "text");
    assert_eq!(elf.sections[0].kind, SectionKind::Text);
    assert_eq!(elf.sections[0].pieces, vec![vec![9; 4]]);
    assert_eq!(elf.symbols.len(), 1);
    assert_eq!(elf.symbols[0].value, 0);
}

#[test]
fn symbols_go_to_the_section_made_last() {
    let mut elf = Elf::new(Architecture::Riscv64, Endianness::Little);
    elf.create_section(Section::Text);
    elf.create_section(Section::Data);
    elf.write_section(Section::Text, symbol("f", SymbolType::Private, vec![9; 4]));
    assert_eq!(elf.symbols[0].section, 1);
    assert!(elf.sections[0].pieces.is_empty());
    assert_eq!(elf.sections[1].pieces, vec![vec![9; 4]]);
}

#[test]
fn symbols_of_other_sections_are_not_written() {
    let mut elf = Elf::new(Architecture::Riscv64, Endianness::Little);
    elf.create_section(Section::Text);
    elf.write_section(Section::Data, symbol("d", SymbolType::Global, vec![1, 2]));
    elf.write_section(Section::Bss, symbol("b", SymbolType::Global, vec![1, 2]));
    elf.write_section(Section::Note, symbol("n", SymbolType::Global, vec![1, 2]));
    elf.write_section(Section::Other(s("o"), None), symbol("o", SymbolType::Global, vec![1]));
    assert!(elf.symbols.is_empty());
    assert!(elf.sections[0].pieces.is_empty());
    assert_eq!(elf.current_tvalue, 0);
}

#[test]
fn room_runs_out_at_sixty_four_bits() {
    let mut elf = Elf::new(Architecture::Riscv64, Endianness::Little);
    elf.current_tvalue = u64::MAX - 3;
    assert!(elf.has_room(&symbol("a", SymbolType::Private, vec![0; 3])));
    assert!(!elf.has_room(&symbol("a", SymbolType::Private, vec![0; 4])));
}

#[test]
fn a_program_becomes_symbols_in_order() {
    let source = "$global @fn main @load %a0, 1 @go exit @endfn @fn exit @syscall @ret @endfn";
    let (functions, table) = compile(s(source)).unwrap();
    let mut elf = Elf::new(Architecture::Riscv64, Endianness::Little);
    elf.create_section(Section::Text);
    for node in &functions {
        let built = SymbolBuilder::new().from_ast(node, &table).unwrap().build();
        assert!(elf.has_room(&built));
        elf.write_section(Section::Text, built);
    }
    let placed: Vec<(String, u64, u64, u8)> =
        elf.symbols.iter().map(|e| (e.name.clone(), e.value, e.size, e.st_info)).collect();
    assert_eq!(placed, vec![(s("main"), 0, 8, 0x12), (s("exit"), 8, 8, 0x10)]);
    assert_eq!(elf.current_tvalue, 16);
}
