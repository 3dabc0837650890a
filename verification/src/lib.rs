//! A small compiler backend: it turns a line-oriented textual instruction
//! language into RISC-V 64 machine code words, resolving function labels to
//! addresses and folding constant arithmetic where it can.
//!
//! Source text goes through the lexer and the parser, which give the
//! functions of the program and the table of their addresses; the code
//! generator then turns each function into machine code.

use crate::parser::ast::{get_from_tokens, node_views, parsed, AstError, AstNode, AstNodeView};
use crate::parser::grammar::lexed;
use crate::parser::layout::{addresses, is_program, laid_out, program_sound};
use crate::parser::table::FunctionTable;
use crate::parser::token::{get_tokens, LexerError};
use crate::riscv::decode::{nodes_code, DecodeErrorView};
use vstd::prelude::*;

pub mod binary;
pub mod parser;
pub mod riscv;
pub mod text;

verus! {

/// Why a source text is no program.
#[derive(Debug, PartialEq, Eq, Clone, Copy, Structural)]
pub enum CompileError {
    /// The text is not made of directives.
    Lexer(LexerError),
    /// The directives do not make functions.
    Ast(AstError),
}

/// The program that a source text denotes: its functions in their order,
/// and the address of each by name.
pub open spec fn compiled(source: Seq<char>) -> Result<
    (Seq<AstNodeView>, Map<Seq<char>, u64>),
    CompileError,
> {
    match lexed(source) {
        Some(tokens) => match parsed(tokens) {
            Ok(program) => Ok(program),
            Err(e) => Err(CompileError::Ast(e)),
        },
        None => Err(CompileError::Lexer(LexerError::SyntaxError)),
    }
}

/// The machine code of the program that a source text denotes, all
/// functions one behind the other; nothing where the text is no program.
pub open spec fn assembled(source: Seq<char>) -> Option<Result<Seq<u8>, DecodeErrorView>> {
    match compiled(source) {
        Ok((functions, table)) => Some(nodes_code(functions, table)),
        Err(_) => None,
    }
}

/// Compiling is a function of the text alone: the same text always gives
/// the same functions, the same table of addresses and the same bytes.
pub proof fn lemma_same_text_same_program(first: Seq<char>, second: Seq<char>)
    requires
        first == second,
    ensures
        compiled(first) == compiled(second),
        assembled(first) == assembled(second),
{
}

/// Reads a source text and gives the functions of the program, ready for the
/// code generator, with the table of their addresses.
pub fn compile(source: String) -> (r: Result<(Vec<AstNode>, FunctionTable), CompileError>)
    ensures
        match compiled(source@) {
            Ok((functions, table)) => r is Ok && node_views(r->Ok_0.0@) == functions && r->Ok_0.1@
                == table,
            Err(e) => r is Err && r->Err_0 == e,
        },
        r matches Ok((functions, table)) ==> {
            &&& is_program(node_views(functions@))
            &&& laid_out(node_views(functions@), 0)
            &&& table@ == addresses(node_views(functions@))
            &&& program_sound(node_views(functions@))
        },
{
    let tokens = match get_tokens(source) {
        Ok(tokens) => tokens,
        Err(e) => {
            return Err(CompileError::Lexer(e));
        },
    };
    match get_from_tokens(tokens) {
        Ok(program) => Ok(program),
        Err(e) => Err(CompileError::Ast(e)),
    }
}

} // verus!
