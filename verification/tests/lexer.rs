use tirc::parser::token::{get_tokens, scan, LexerError, Token};
use tirc::parser::types::Type;

fn s(text: &str) -> String {
    text.to_string()
}

#[test]
fn single_word_directives() {
    assert_eq!(
        get_tokens(s("@syscall @ret @endfn @nop $global")),
        Ok(vec![Token::Syscall, Token::Ret, Token::EndFn, Token::Nop, Token::Global])
    );
}

#[test]
fn empty_and_blank_text_has_no_tokens() {
    assert_eq!(get_tokens(s("")), Ok(vec![]));
    assert_eq!(get_tokens(s(" \t\n\x0C ")), Ok(vec![]));
}

#[test]
fn directives_need_no_blank_between_them() {
    assert_eq!(get_tokens(s("@ret@nop$global")), Ok(vec![Token::Ret, Token::Nop, Token::Global]));
}

#[test]
fn function_and_jump_take_a_name() {
    assert_eq!(
        get_tokens(s("@fn main\n@go _start2\n@endfn")),
        Ok(vec![Token::Fn(s("main")), Token::Go(s("_start2")), Token::EndFn])
    );
    assert_eq!(get_tokens(s("@fn\t\n  f")), Ok(vec![Token::Fn(s("f"))]));
}

#[test]
fn name_must_follow_a_blank_and_start_with_a_letter() {
    assert_eq!(get_tokens(s("@fnmain")), Err(LexerError::SyntaxError));
    assert_eq!(get_tokens(s("@fn 1abc")), Err(LexerError::SyntaxError));
    assert_eq!(get_tokens(s("@fn")), Err(LexerError::SyntaxError));
    assert_eq!(get_tokens(s("@go ")), Err(LexerError::SyntaxError));
}

#[test]
fn load_takes_register_and_integer() {
    assert_eq!(get_tokens(s("@load %a0, 30")), Ok(vec![Token::Load(s("a0"), 30)]));
    assert_eq!(get_tokens(s("@load %t1 ,-7")), Ok(vec![Token::Load(s("t1"), -7)]));
    assert_eq!(
        get_tokens(s("@load %a0, 9223372036854775807")),
        Ok(vec![Token::Load(s("a0"), i64::MAX)])
    );
    assert_eq!(
        get_tokens(s("@load %a0, -9223372036854775808")),
        Ok(vec![Token::Load(s("a0"), i64::MIN)])
    );
    assert_eq!(get_tokens(s("@load %a0, 0007")), Ok(vec![Token::Load(s("a0"), 7)]));
}

#[test]
fn load_refuses_what_does_not_fit() {
    assert_eq!(get_tokens(s("@load %a0, 9223372036854775808")), Err(LexerError::SyntaxError));
    assert_eq!(get_tokens(s("@load %a0, -9223372036854775809")), Err(LexerError::SyntaxError));
    assert_eq!(get_tokens(s("@load %a0, -")), Err(LexerError::SyntaxError));
    assert_eq!(get_tokens(s("@load %a0 30")), Err(LexerError::SyntaxError));
    assert_eq!(get_tokens(s("@load a0, 30")), Err(LexerError::SyntaxError));
    assert_eq!(get_tokens(s("@load %a0, x")), Err(LexerError::SyntaxError));
}

#[test]
fn register_arithmetic_takes_two_registers() {
    assert_eq!(
        get_tokens(s("@radd %a0, %a1 @rsub %s10,%T6")),
        Ok(vec![Token::Radd(s("a0"), s("a1")), Token::Rsub(s("s10"), s("T6"))])
    );
    assert_eq!(get_tokens(s("@radd %a0")), Err(LexerError::SyntaxError));
    assert_eq!(get_tokens(s("@rsub %a0, 5")), Err(LexerError::SyntaxError));
}

#[test]
fn sum_reads_operands_of_its_width() {
    assert_eq!(
        get_tokens(s("@sum i32, %a0, 5, 7, %zero, %t0")),
        Ok(vec![Token::Sum(
            s("i32"),
            s("a0"),
            vec![Type::I32(5), Type::I32(7), Type::Value(s("%zero")), Type::Value(s("%t0"))]
        )])
    );
    assert_eq!(
        get_tokens(s("@sum u8, %a0, 250, 10")),
        Ok(vec![Token::Sum(s("u8"), s("a0"), vec![Type::U8(250), Type::U8(10)])])
    );
    assert_eq!(
        get_tokens(s("@sum i128, %a0, -170141183460469231731687303715884105728, 0")),
        Ok(vec![Token::Sum(s("i128"), s("a0"), vec![Type::I128(i128::MIN), Type::I128(0)])])
    );
    assert_eq!(
        get_tokens(s("@sum u128, %a0, 340282366920938463463374607431768211455, 1")),
        Ok(vec![Token::Sum(s("u128"), s("a0"), vec![Type::U128(u128::MAX), Type::U128(1)])])
    );
}

#[test]
fn sum_may_end_in_a_comma() {
    assert_eq!(
        get_tokens(s("@sum i64, %a0, 1, 2, @ret")),
        Ok(vec![Token::Sum(s("i64"), s("a0"), vec![Type::I64(1), Type::I64(2)]), Token::Ret])
    );
    assert_eq!(
        get_tokens(s("@sum i64, %a0, 1, %a1,")),
        Ok(vec![Token::Sum(s("i64"), s("a0"), vec![Type::I64(1), Type::Value(s("%a1"))])])
    );
}

#[test]
fn sum_needs_two_operands() {
    assert_eq!(get_tokens(s("@sum i32, %a0, 5")), Err(LexerError::SyntaxError));
    assert_eq!(get_tokens(s("@sum i32, %a0, 5,")), Err(LexerError::SyntaxError));
    assert_eq!(get_tokens(s("@sum i32, %a0")), Err(LexerError::SyntaxError));
}

#[test]
fn sum_refuses_operands_outside_its_width() {
    assert_eq!(get_tokens(s("@sum u8, %a0, 256, 1")), Err(LexerError::SyntaxError));
    assert_eq!(get_tokens(s("@sum u8, %a0, 1, -1")), Err(LexerError::SyntaxError));
    assert_eq!(get_tokens(s("@sum u8, %a0, 1, -0")), Err(LexerError::SyntaxError));
    assert_eq!(get_tokens(s("@sum i8, %a0, 1, 128")), Err(LexerError::SyntaxError));
    assert_eq!(
        get_tokens(s("@sum i8, %a0, -128, 127")),
        Ok(vec![Token::Sum(s("i8"), s("a0"), vec![Type::I8(-128), Type::I8(127)])])
    );
    assert_eq!(get_tokens(s("@sum i7, %a0, 1, 2")), Err(LexerError::SyntaxError));
    assert_eq!(get_tokens(s("@sum I32, %a0, 1, 2")), Err(LexerError::SyntaxError));
    assert_eq!(
        get_tokens(s("@sum u128, %a0, 340282366920938463463374607431768211456, 1")),
        Err(LexerError::SyntaxError)
    );
    assert_eq!(
        get_tokens(s("@sum u128, %a0, 99999999999999999999999999999999999999999999999, 1")),
        Err(LexerError::SyntaxError)
    );
}

#[test]
fn every_bad_piece_is_reported() {
    let (tokens, rejected) = scan("@nop what @ret is? @load %a0 @nop");
    assert_eq!(tokens, vec![Token::Nop, Token::Ret, Token::Nop]);
    assert_eq!(rejected, vec![s("what"), s("is?"), s("@load"), s("%a0")]);
    assert_eq!(
        get_tokens(s("@nop what @ret is? @load %a0 @nop")),
        Err(LexerError::SyntaxError)
    );
}

#[test]
fn scan_of_good_text_rejects_nothing() {
    let (tokens, rejected) = scan("$global\n@fn main\n  @load %a0, 1\n@endfn\n");
    assert_eq!(
        tokens,
        vec![Token::Global, Token::Fn(s("main")), Token::Load(s("a0"), 1), Token::EndFn]
    );
    assert!(rejected.is_empty());
}

#[test]
fn text_outside_ascii_is_refused() {
    assert_eq!(get_tokens(s("@fn caf\u{e9}")), Err(LexerError::SyntaxError));
    assert_eq!(get_tokens(s("@nop\u{a0}@ret")), Err(LexerError::SyntaxError));
    assert_eq!(get_tokens(s("@nop\r\n@ret")), Err(LexerError::SyntaxError));
}
