use tirc::binary::symbol::SymbolType;
use tirc::parser::ast::{get_from_tokens, AstError, AstNode};
use tirc::parser::table::FunctionTable;
use tirc::parser::token::Token;
use tirc::parser::types::Type;
use tirc::{compile, CompileError};

fn s(text: &str) -> String {
    text.to_string()
}

#[test]
fn empty_program() {
    let (functions, table) = get_from_tokens(vec![]).unwrap();
    assert!(functions.is_empty());
    assert_eq!(table, FunctionTable::new());
}

#[test]
fn one_function_with_every_instruction() {
    let tokens = vec![
        Token::Fn(s("main")),
        Token::Load(s("a0"), 5),
        Token::Syscall,
        Token::Go(s("main")),
        Token::Radd(s("a0"), s("a1")),
        Token::Rsub(s("a0"), s("a1")),
        Token::Nop,
        Token::Ret,
        Token::EndFn,
    ];
    let (functions, table) = get_from_tokens(tokens).unwrap();
    assert_eq!(
        functions,
        vec![AstNode::Function {
            name: s("main"),
            stype: SymbolType::Private,
            body: vec![
                AstNode::Load { dist: s("a0"), value: 5 },
                AstNode::Syscall,
                AstNode::Go { target: s("main"), pc: 8 },
                AstNode::Radd { target: s("a0"), rs1: s("a1") },
                AstNode::Rsub { target: s("a0"), rs1: s("a1") },
                AstNode::Nop,
                AstNode::Ret,
            ],
            pc: 0,
        }]
    );
    assert_eq!(table.get("main"), Some(0));
    assert_eq!(table.get("other"), None);
}

#[test]
fn functions_follow_each_other() {
    let tokens = vec![
        Token::Fn(s("first")),
        Token::Nop,
        Token::Nop,
        Token::EndFn,
        Token::Fn(s("second")),
        Token::Go(s("first")),
        Token::Ret,
        Token::EndFn,
        Token::Fn(s("third")),
        Token::EndFn,
        Token::Fn(s("fourth")),
        Token::Go(s("third")),
        Token::EndFn,
    ];
    let (functions, table) = get_from_tokens(tokens).unwrap();
    assert_eq!(functions.len(), 4);
    assert_eq!(table.get("first"), Some(0));
    assert_eq!(table.get("second"), Some(8));
    assert_eq!(table.get("third"), Some(16));
    assert_eq!(table.get("fourth"), Some(16));
    assert_eq!(
        functions[1],
        AstNode::Function {
            name: s("second"),
            stype: SymbolType::Private,
            body: vec![AstNode::Go { target: s("first"), pc: 8 }, AstNode::Ret],
            pc: 8,
        }
    );
    assert_eq!(
        functions[3],
        AstNode::Function {
            name: s("fourth"),
            stype: SymbolType::Private,
            body: vec![AstNode::Go { target: s("third"), pc: 16 }],
            pc: 16,
        }
    );
}

#[test]
fn sum_moves_the_counter_by_four_and_its_deferred_operands() {
    let tokens = vec![
        Token::Fn(s("f")),
        Token::Sum(
            s("i32"),
            s("a0"),
            vec![Type::I32(5), Type::I32(7), Type::Value(s("%zero")), Type::Value(s("%t0"))],
        ),
        Token::Go(s("f")),
        Token::Sum(s("u8"), s("a1"), vec![Type::Value(s("%t0")), Type::Value(s("%t1"))]),
        Token::Go(s("f")),
        Token::Sum(s("u8"), s("a1"), vec![Type::U8(1), Type::U8(2)]),
        Token::Go(s("f")),
        Token::EndFn,
        Token::Fn(s("g")),
        Token::EndFn,
    ];
    let (functions, table) = get_from_tokens(tokens).unwrap();
    match &functions[0] {
        AstNode::Function { body, pc, .. } => {
            assert_eq!(*pc, 0);
            assert_eq!(body[1], AstNode::Go { target: s("f"), pc: 5 });
            assert_eq!(body[3], AstNode::Go { target: s("f"), pc: 15 });
            assert_eq!(body[5], AstNode::Go { target: s("f"), pc: 23 });
        }
        other => panic!("not a function: {:?}", other),
    }
    assert_eq!(table.get("g"), Some(27));
}

#[test]
fn global_marks_the_function_closed_next() {
    let tokens = vec![
        Token::Global,
        Token::Fn(s("a")),
        Token::EndFn,
        Token::Fn(s("b")),
        Token::Global,
        Token::Nop,
        Token::EndFn,
        Token::Fn(s("c")),
        Token::EndFn,
    ];
    let (functions, _) = get_from_tokens(tokens).unwrap();
    let visibility: Vec<SymbolType> = functions
        .iter()
        .map(|f| match f {
            AstNode::Function { stype, .. } => *stype,
            other => panic!("not a function: {:?}", other),
        })
        .collect();
    assert_eq!(visibility, vec![SymbolType::Global, SymbolType::Global, SymbolType::Private]);
}

#[test]
fn a_name_entered_twice_takes_the_later_address() {
    let tokens = vec![
        Token::Fn(s("f")),
        Token::Nop,
        Token::EndFn,
        Token::Fn(s("f")),
        Token::EndFn,
    ];
    let (functions, table) = get_from_tokens(tokens).unwrap();
    assert_eq!(functions.len(), 2);
    assert_eq!(table.get("f"), Some(4));
}

#[test]
fn nested_function_is_refused() {
    let tokens = vec![Token::Fn(s("a")), Token::Fn(s("b")), Token::EndFn, Token::EndFn];
    assert_eq!(get_from_tokens(tokens), Err(AstError::NestedFunction));
}

#[test]
fn open_function_at_the_end_is_refused() {
    assert_eq!(
        get_from_tokens(vec![Token::Fn(s("a")), Token::Nop]),
        Err(AstError::FnNotClosed)
    );
    assert_eq!(get_from_tokens(vec![Token::Fn(s("a"))]), Err(AstError::FnNotClosed));
}

#[test]
fn instruction_outside_of_function_is_refused() {
    assert_eq!(get_from_tokens(vec![Token::Nop]), Err(AstError::OutsideOfFunction));
    assert_eq!(get_from_tokens(vec![Token::Ret]), Err(AstError::OutsideOfFunction));
    assert_eq!(get_from_tokens(vec![Token::Syscall]), Err(AstError::OutsideOfFunction));
    assert_eq!(get_from_tokens(vec![Token::Go(s("f"))]), Err(AstError::OutsideOfFunction));
    assert_eq!(get_from_tokens(vec![Token::Load(s("a0"), 1)]), Err(AstError::OutsideOfFunction));
    assert_eq!(
        get_from_tokens(vec![Token::Radd(s("a0"), s("a1"))]),
        Err(AstError::OutsideOfFunction)
    );
    assert_eq!(
        get_from_tokens(vec![Token::Rsub(s("a0"), s("a1"))]),
        Err(AstError::OutsideOfFunction)
    );
    assert_eq!(
        get_from_tokens(vec![Token::Sum(s("u8"), s("a0"), vec![Type::U8(1), Type::U8(2)])]),
        Err(AstError::OutsideOfFunction)
    );
    assert_eq!(
        get_from_tokens(vec![Token::Fn(s("a")), Token::EndFn, Token::Nop]),
        Err(AstError::OutsideOfFunction)
    );
}

#[test]
fn end_without_function_is_refused() {
    assert_eq!(get_from_tokens(vec![Token::EndFn]), Err(AstError::EndFnWithoutFn));
    assert_eq!(
        get_from_tokens(vec![Token::Fn(s("a")), Token::EndFn, Token::EndFn]),
        Err(AstError::EndFnWithoutFn)
    );
}

#[test]
fn the_first_error_is_reported() {
    assert_eq!(
        get_from_tokens(vec![Token::Nop, Token::EndFn, Token::Fn(s("a"))]),
        Err(AstError::OutsideOfFunction)
    );
}

#[test]
fn global_alone_is_a_program_without_functions() {
    let (functions, table) = get_from_tokens(vec![Token::Global]).unwrap();
    assert!(functions.is_empty());
    assert_eq!(table.get("main"), None);
}

#[test]
fn compile_reads_and_parses() {
    let source = "$global\n@fn main\n  @load %a0, 30\n  @go exit\n@endfn\n@fn exit\n  @syscall\n  @ret\n@endfn\n";
    let (functions, table) = compile(s(source)).unwrap();
    assert_eq!(
        functions,
        vec![
            AstNode::Function {
                name: s("main"),
                stype: SymbolType::Global,
                body: vec![
                    AstNode::Load { dist: s("a0"), value: 30 },
                    AstNode::Go { target: s("exit"), pc: 4 },
                ],
                pc: 0,
            },
            AstNode::Function {
                name: s("exit"),
                stype: SymbolType::Private,
                body: vec![AstNode::Syscall, AstNode::Ret],
                pc: 8,
            },
        ]
    );
    assert_eq!(table.get("main"), Some(0));
    assert_eq!(table.get("exit"), Some(8));
}

#[test]
fn compile_says_which_stage_failed() {
    assert_eq!(
        compile(s("@fn main @bogus @endfn")),
        Err(CompileError::Lexer(tirc::parser::token::LexerError::SyntaxError))
    );
    assert_eq!(compile(s("@fn a @fn b")), Err(CompileError::Ast(AstError::NestedFunction)));
    assert_eq!(compile(s("@fn a @nop")), Err(CompileError::Ast(AstError::FnNotClosed)));
    assert_eq!(compile(s("@nop")), Err(CompileError::Ast(AstError::OutsideOfFunction)));
    assert_eq!(compile(s("@endfn")), Err(CompileError::Ast(AstError::EndFnWithoutFn)));
}

#[test]
fn compiling_twice_gives_the_same_program() {
    let source = "@fn f @sum i32, %a0, 5, 7, %zero, %t0 @go f @endfn $global @fn g @ret @endfn";
    assert_eq!(compile(s(source)), compile(s(source)));
}
