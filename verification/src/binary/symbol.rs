//! Symbols: the name, the visibility and the machine code of a function.

use crate::binary::Section;
use crate::parser::ast::{AstNode, AstNodeView};
use crate::parser::table::FunctionTable;
use crate::riscv::decode::{
    encodable, from_nodes, nodes_code, DecodeError, DecodeErrorView,
};
use vstd::prelude::*;
use vstd::std_specs::convert::FromSpecImpl;

verus! {

/// Who can see a symbol.
#[derive(Debug, Clone, Copy, PartialEq, Eq, Structural)]
pub enum SymbolType {
    /// Other units can refer to the symbol.
    Global,
    /// The symbol is known within its own unit only.
    Private,
}

/// Why a node yields no symbol.
#[derive(Debug, PartialEq, Eq, Clone)]
pub enum SymbolError {
    /// The function has no machine code.
    DecodeError(DecodeError),
}

impl View for SymbolError {
    type V = DecodeErrorView;

    open spec fn view(&self) -> DecodeErrorView {
        match self {
            SymbolError::DecodeError(e) => e@,
        }
    }
}

impl From<DecodeError> for SymbolError {
    fn from(e: DecodeError) -> (error: SymbolError)
    {
        SymbolError::DecodeError(e)
    }
}

impl FromSpecImpl<DecodeError> for SymbolError {
    open spec fn obeys_from_spec() -> bool {
        true
    }

    open spec fn from_spec(e: DecodeError) -> SymbolError {
        SymbolError::DecodeError(e)
    }
}

/// A symbol: a named run of bytes in a section.
#[derive(Debug)]
pub struct Symbol {
    pub name: String,
    pub section: Section,
    pub symbol_type: SymbolType,
    pub content: Vec<u8>,
}

/// Builds a symbol field by field.
#[derive(Debug)]
pub struct SymbolBuilder {
    pub symbol: Symbol,
}

impl SymbolBuilder {
    /// A builder whose symbol is private, without content, named `empty`
    /// and in the notes.
    pub fn new() -> (builder: SymbolBuilder)
        ensures
            builder.symbol.name@ == "empty"@,
            builder.symbol.symbol_type == SymbolType::Private,
            builder.symbol.content@ == Seq::<u8>::empty(),
            builder.symbol.section is Note,
    {
        SymbolBuilder {
            symbol: Symbol {
                name: "empty".to_owned(),
                symbol_type: SymbolType::Private,
                content: Vec::new(),
                section: Section::Note,
            },
        }
    }

    /// Gives the symbol a name.
    #[must_use]
    pub fn set_name(self, name: String) -> (builder: SymbolBuilder)
        ensures
            builder.symbol == (Symbol { name, ..self.symbol }),
    {
        let mut builder = self;
        builder.symbol.name = name;
        builder
    }

    /// Puts the symbol into a section.
    #[must_use]
    pub fn set_section(self, section: Section) -> (builder: SymbolBuilder)
        ensures
            builder.symbol == (Symbol { section, ..self.symbol }),
    {
        let mut builder = self;
        builder.symbol.section = section;
        builder
    }

    /// Gives the symbol its bytes.
    #[must_use]
    pub fn set_content(self, content: Vec<u8>) -> (builder: SymbolBuilder)
        ensures
            builder.symbol == (Symbol { content, ..self.symbol }),
    {
        let mut builder = self;
        builder.symbol.content = content;
        builder
    }

    /// Says who can see the symbol.
    #[must_use]
    pub fn set_type(self, new_type: SymbolType) -> (builder: SymbolBuilder)
        ensures
            builder.symbol == (Symbol { symbol_type: new_type, ..self.symbol }),
    {
        let mut builder = self;
        builder.symbol.symbol_type = new_type;
        builder
    }

    /// Takes name, visibility and content from a function: the content is
    /// the machine code of the function's body. Any other node leaves the
    /// builder as it is.
    ///
    /// The node has to be one that can be encoded;
    /// [`can_encode`](crate::riscv::decode::can_encode) tells.
    #[must_use]
    pub fn from_ast(self, node: &AstNode, functions: &FunctionTable) -> (r: Result<
        SymbolBuilder,
        SymbolError,
    >)
        requires
            encodable(node@, functions@),
        ensures
            match node@ {
                AstNodeView::Function { name, stype, body, .. } => match nodes_code(
                    body,
                    functions@,
                ) {
                    Ok(bytes) => {
                        &&& r is Ok
                        &&& r->Ok_0.symbol.name@ == name
                        &&& r->Ok_0.symbol.symbol_type == stype
                        &&& r->Ok_0.symbol.content@ == bytes
                        &&& r->Ok_0.symbol.section == self.symbol.section
                    },
                    Err(e) => r is Err && r->Err_0@ == e,
                },
                _ => r is Ok && r->Ok_0 == self,
            },
    {
        let mut builder = self;
        match node {
            AstNode::Function { name, body, stype, .. } => {
                let content = match from_nodes(body, functions) {
                    Ok(content) => content,
                    Err(e) => {
                        return Err(SymbolError::DecodeError(e));
                    },
                };
                builder.symbol.name = name.clone();
                builder.symbol.symbol_type = *stype;
                builder.symbol.content = content;
            },
            _ => {},
        }
        Ok(builder)
    }

    /// The symbol that was built.
    pub fn build(self) -> (symbol: Symbol)
        ensures
            symbol == self.symbol,
    {
        self.symbol
    }
}

} // verus!
