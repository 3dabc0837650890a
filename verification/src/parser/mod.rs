//! The front end: operands and their arithmetic, the lexer, and the parser
//! that groups tokens into functions and gives each an address.

pub mod ast;
pub mod evaluator;
pub mod grammar;
pub mod layout;
pub mod literal;
pub mod scanner;
pub mod table;
pub mod token;
pub mod types;
