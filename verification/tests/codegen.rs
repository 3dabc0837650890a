use tirc::binary::symbol::SymbolType;
use tirc::compile;
use tirc::parser::ast::AstNode;
use tirc::parser::table::FunctionTable;
use tirc::parser::types::{Type, TypeError};
use tirc::riscv::decode::{can_encode, can_encode_all, from_nodes, node_to_opcode, DecodeError};
use tirc::riscv::jmp::JmpError;

fn s(text: &str) -> String {
    text.to_string()
}

fn words(bytes: &[u8]) -> Vec<u32> {
    assert_eq!(bytes.len() % 4, 0);
    bytes.chunks(4).map(|c| u32::from_le_bytes([c[0], c[1], c[2], c[3]])).collect()
}

fn sum(tag: &str, dist: &str, numbers: Vec<Type>) -> AstNode {
    AstNode::Sum { numbers, dist: s(dist), t: s(tag) }
}

#[test]
fn load_is_an_add_immediate_to_zero() {
    let table = FunctionTable::new();
    let node = AstNode::Load { dist: s("a0"), value: 30 };
    assert_eq!(words(&node_to_opcode(&node, &table).unwrap()), vec![0x01E00513]);
}

#[test]
fn plain_instructions() {
    let table = FunctionTable::new();
    assert_eq!(words(&node_to_opcode(&AstNode::Syscall, &table).unwrap()), vec![0x0000_0073]);
    assert_eq!(words(&node_to_opcode(&AstNode::Ret, &table).unwrap()), vec![0x0000_8067]);
    assert_eq!(words(&node_to_opcode(&AstNode::Nop, &table).unwrap()), vec![0x0000_0013]);
}

#[test]
fn register_arithmetic() {
    let table = FunctionTable::new();
    let radd = AstNode::Radd { target: s("a0"), rs1: s("t0") };
    let rsub = AstNode::Rsub { target: s("A0"), rs1: s("T0") };
    assert_eq!(words(&node_to_opcode(&radd, &table).unwrap()), vec![0x0055_0533]);
    assert_eq!(words(&node_to_opcode(&rsub, &table).unwrap()), vec![0x4055_0533]);
}

#[test]
fn sum_is_one_add_immediate_and_one_add_for_each_register() {
    let table = FunctionTable::new();
    let node = sum(
        "i32",
        "a0",
        vec![Type::I32(5), Type::I32(7), Type::Value(s("%zero")), Type::Value(s("%t0"))],
    );
    assert!(can_encode(&node, &table));
    assert_eq!(
        words(&node_to_opcode(&node, &table).unwrap()),
        vec![(12 << 20) | (10 << 7) | 0x13, 0x0055_0533]
    );
}

#[test]
fn sum_of_every_width_is_encoded() {
    let table = FunctionTable::new();
    let cases = vec![
        sum("i8", "a0", vec![Type::I8(1), Type::I8(2)]),
        sum("u8", "a0", vec![Type::U8(1), Type::U8(2)]),
        sum("i16", "a0", vec![Type::I16(1), Type::I16(2)]),
        sum("u16", "a0", vec![Type::U16(1), Type::U16(2)]),
        sum("i32", "a0", vec![Type::I32(1), Type::I32(2)]),
        sum("u32", "a0", vec![Type::U32(1), Type::U32(2)]),
        sum("i64", "a0", vec![Type::I64(1), Type::I64(2)]),
        sum("u64", "a0", vec![Type::U64(1), Type::U64(2)]),
        sum("i128", "a0", vec![Type::I128(1), Type::I128(2)]),
        sum("u128", "a0", vec![Type::U128(1), Type::U128(2)]),
    ];
    for node in cases {
        assert_eq!(
            words(&node_to_opcode(&node, &table).unwrap()),
            vec![(3 << 20) | (10 << 7) | 0x13]
        );
    }
}

#[test]
fn encoding_a_sum_that_overflows_is_refused() {
    let table = FunctionTable::new();
    let node = sum("u8", "a0", vec![Type::U8(250), Type::U8(10)]);
    assert_eq!(
        node_to_opcode(&node, &table),
        Err(DecodeError::TypeError(TypeError::Overflow))
    );
}

#[test]
fn sum_of_mixed_widths_is_refused() {
    let table = FunctionTable::new();
    let node = sum("u8", "a0", vec![Type::U8(1), Type::U16(1)]);
    assert_eq!(
        node_to_opcode(&node, &table),
        Err(DecodeError::TypeError(TypeError::MismatchedTypes))
    );
}

#[test]
fn sum_too_wide_for_an_immediate_is_refused() {
    let table = FunctionTable::new();
    let node = sum("u64", "a0", vec![Type::U64(u64::MAX), Type::U64(0)]);
    assert_eq!(
        node_to_opcode(&node, &table),
        Err(DecodeError::TypeError(TypeError::CannotCast(Type::U64(u64::MAX))))
    );
}

#[test]
fn unknown_registers_are_named() {
    let table = FunctionTable::new();
    assert_eq!(
        node_to_opcode(&AstNode::Load { dist: s("x9"), value: 1 }, &table),
        Err(DecodeError::InvalidRegister(s("x9")))
    );
    assert_eq!(
        node_to_opcode(&AstNode::Radd { target: s("a0"), rs1: s("b0") }, &table),
        Err(DecodeError::InvalidRegister(s("b0")))
    );
    assert_eq!(
        node_to_opcode(&AstNode::Rsub { target: s("q"), rs1: s("b0") }, &table),
        Err(DecodeError::InvalidRegister(s("q")))
    );
    assert_eq!(
        node_to_opcode(&sum("i32", "nowhere", vec![Type::I32(1), Type::I32(2)]), &table),
        Err(DecodeError::InvalidRegister(s("nowhere")))
    );
    assert_eq!(
        node_to_opcode(
            &sum("i32", "a0", vec![Type::I32(1), Type::Value(s("%t9")), Type::Value(s("%u1"))]),
            &table
        ),
        Err(DecodeError::InvalidRegister(s("t9")))
    );
}

#[test]
fn jump_to_a_known_function() {
    let mut table = FunctionTable::new();
    table.insert(s("target"), 8);
    let node = AstNode::Go { target: s("target"), pc: 0 };
    assert!(can_encode(&node, &table));
    assert_eq!(words(&node_to_opcode(&node, &table).unwrap()), vec![0x0080_00EF]);
}

#[test]
fn jump_to_an_unknown_function_is_refused() {
    let table = FunctionTable::new();
    let node = AstNode::Go { target: s("nowhere"), pc: 0 };
    assert!(can_encode(&node, &table));
    assert_eq!(node_to_opcode(&node, &table), Err(DecodeError::FnNotFound(s("nowhere"))));
}

#[test]
fn jump_over_an_odd_distance_is_refused() {
    let mut table = FunctionTable::new();
    table.insert(s("odd"), 5);
    let node = AstNode::Go { target: s("odd"), pc: 0 };
    assert!(can_encode(&node, &table));
    assert_eq!(
        node_to_opcode(&node, &table),
        Err(DecodeError::JmpError(JmpError::NonAlignedAddress))
    );
}

#[test]
fn what_cannot_be_encoded_is_told_apart() {
    let mut table = FunctionTable::new();
    table.insert(s("far"), 0x20_0000);
    assert!(!can_encode(&AstNode::Go { target: s("far"), pc: 0 }, &table));
    assert!(can_encode(&AstNode::Go { target: s("far"), pc: 0x1F_0000 }, &table));
    assert!(!can_encode(&sum("i7", "a0", vec![]), &table));
    assert!(can_encode(&sum("i8", "a0", vec![]), &table));
    let function = AstNode::Function {
        name: s("f"),
        stype: SymbolType::Private,
        body: vec![AstNode::Nop, AstNode::Go { target: s("far"), pc: 4 }],
        pc: 0,
    };
    assert!(!can_encode(&function, &table));
    assert!(!can_encode_all(&vec![AstNode::Nop, function], &table));
    assert!(can_encode_all(&vec![AstNode::Nop, AstNode::Ret], &table));
    assert!(can_encode_all(&vec![], &table));
}

#[test]
fn function_is_the_code_of_its_body() {
    let table = FunctionTable::new();
    let function = AstNode::Function {
        name: s("f"),
        stype: SymbolType::Global,
        body: vec![AstNode::Nop, AstNode::Syscall, AstNode::Ret],
        pc: 0,
    };
    assert_eq!(
        words(&node_to_opcode(&function, &table).unwrap()),
        vec![0x0000_0013, 0x0000_0073, 0x0000_8067]
    );
    let empty = AstNode::Function {
        name: s("g"),
        stype: SymbolType::Global,
        body: vec![],
        pc: 0,
    };
    assert_eq!(node_to_opcode(&empty, &table), Ok(vec![]));
}

#[test]
fn nodes_are_encoded_one_behind_the_other() {
    let table = FunctionTable::new();
    let nodes = vec![AstNode::Load { dist: s("a7"), value: 93 }, AstNode::Syscall];
    assert_eq!(
        words(&from_nodes(&nodes, &table).unwrap()),
        vec![(93 << 20) | (17 << 7) | 0x13, 0x73]
    );
    assert_eq!(from_nodes(&vec![], &table), Ok(vec![]));
}

#[test]
fn the_first_failing_node_is_the_error() {
    let table = FunctionTable::new();
    let nodes = vec![
        AstNode::Nop,
        AstNode::Load { dist: s("bad"), value: 1 },
        AstNode::Go { target: s("nowhere"), pc: 8 },
    ];
    assert_eq!(from_nodes(&nodes, &table), Err(DecodeError::InvalidRegister(s("bad"))));
}

#[test]
fn source_text_to_machine_code() {
    let source = "\
$global
@fn main
    @load %a0, 1
    @sum i64, %a1, 40, 2, %a0
    @go exit
@endfn
@fn exit
    @load %a7, 93
    @syscall
    @ret
@endfn
";
    let (functions, table) = compile(s(source)).unwrap();
    assert!(can_encode_all(&functions, &table));
    let main = words(&node_to_opcode(&functions[0], &table).unwrap());
    assert_eq!(
        main,
        vec![
            (1 << 20) | (10 << 7) | 0x13,
            (42 << 20) | (11 << 7) | 0x13,
            (10 << 20) | (11 << 15) | (11 << 7) | 0x33,
            // from address 9 to address 13: two units forward
            ((2 & 0x3ff) << 21) | (1 << 7) | 0x6f,
        ]
    );
    let exit = words(&node_to_opcode(&functions[1], &table).unwrap());
    assert_eq!(exit, vec![(93 << 20) | (17 << 7) | 0x13, 0x73, 0x8067]);
    let all = from_nodes(&functions, &table).unwrap();
    assert_eq!(words(&all), [main, exit].concat());
}

#[test]
fn generating_twice_gives_the_same_bytes() {
    let source = "@fn f @sum u16, %t1, 1, 2, %t2 @go f @endfn";
    let (functions, table) = compile(s(source)).unwrap();
    let (again, again_table) = compile(s(source)).unwrap();
    assert_eq!(table, again_table);
    assert_eq!(from_nodes(&functions, &table), from_nodes(&again, &again_table));
}
