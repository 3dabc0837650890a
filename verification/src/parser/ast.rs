//! The syntax tree, and the parser that builds it from tokens.
//!
//! The parser is a machine with two states: outside of any function, or
//! inside the one that is open. It counts the address of every instruction
//! as it goes, so that each function knows where it begins and each jump
//! where it stands.

use super::evaluator::count_deferred;
use super::layout::{
    addresses, is_program, laid_out, lemma_parsed_laid_out, lemma_parsed_sound, program_sound,
};
use super::table::FunctionTable;
use super::token::{
    all_well_formed, lemma_total_span_monotone, span, total_span, Token, TokenView,
};
use super::types::{Type, TypeView};
use crate::binary::symbol::SymbolType;
use vstd::prelude::*;

verus! {

/// Why a run of tokens is no program.
#[derive(Debug, PartialEq, Eq, Clone, Copy, Structural)]
pub enum AstError {
    /// A function is opened inside another.
    NestedFunction,
    /// An instruction stands outside of any function.
    OutsideOfFunction,
    /// The tokens end while a function is open.
    FnNotClosed,
    /// A function is closed where none is open.
    EndFnWithoutFn,
}

/// A node of the syntax tree.
#[derive(Debug, PartialEq, Eq)]
pub enum AstNode {
    /// A function: its instructions, and the address of the first.
    Function { name: String, stype: SymbolType, body: Vec<AstNode>, pc: u64 },
    /// The sum of the operands, of the width that `t` names, goes to
    /// register `dist`.
    Sum { numbers: Vec<Type>, dist: String, t: String },
    /// A constant goes to register `dist`.
    Load { dist: String, value: i64 },
    /// A call of the environment.
    Syscall,
    /// A jump to the function `target` from the address `pc`.
    Go { target: String, pc: u64 },
    /// Register `rs1` is added to register `target`.
    Radd { target: String, rs1: String },
    /// Register `rs1` is subtracted from register `target`.
    Rsub { target: String, rs1: String },
    /// The return from a function.
    Ret,
    /// An instruction that does nothing.
    Nop,
}

/// What an [`AstNode`] stands for.
pub ghost enum AstNodeView {
    Function { name: Seq<char>, stype: SymbolType, body: Seq<AstNodeView>, pc: u64 },
    Sum { numbers: Seq<TypeView>, dist: Seq<char>, t: Seq<char> },
    Load { dist: Seq<char>, value: i64 },
    Syscall,
    Go { target: Seq<char>, pc: u64 },
    Radd { target: Seq<char>, rs1: Seq<char> },
    Rsub { target: Seq<char>, rs1: Seq<char> },
    Ret,
    Nop,
}

impl View for AstNode {
    type V = AstNodeView;

    open spec fn view(&self) -> AstNodeView
        decreases self,
    {
        match self {
            AstNode::Function { name, stype, body, pc } => AstNodeView::Function {
                name: name@,
                stype: *stype,
                body: node_views(body@),
                pc: *pc,
            },
            AstNode::Sum { numbers, dist, t } => AstNodeView::Sum {
                numbers: numbers.deep_view(),
                dist: dist@,
                t: t@,
            },
            AstNode::Load { dist, value } => AstNodeView::Load { dist: dist@, value: *value },
            AstNode::Syscall => AstNodeView::Syscall,
            AstNode::Go { target, pc } => AstNodeView::Go { target: target@, pc: *pc },
            AstNode::Radd { target, rs1 } => AstNodeView::Radd { target: target@, rs1: rs1@ },
            AstNode::Rsub { target, rs1 } => AstNodeView::Rsub { target: target@, rs1: rs1@ },
            AstNode::Ret => AstNodeView::Ret,
            AstNode::Nop => AstNodeView::Nop,
        }
    }
}

/// What each node of a list stands for, in the order of the list.
pub open spec fn node_views(nodes: Seq<AstNode>) -> Seq<AstNodeView>
    decreases nodes,
{
    if nodes.len() == 0 {
        Seq::empty()
    } else {
        node_views(nodes.drop_last()).push(nodes.last()@)
    }
}

/// The views of a list are as many as its nodes, and each is the view of the
/// node in its place.
pub proof fn lemma_node_views(nodes: Seq<AstNode>)
    ensures
        node_views(nodes).len() == nodes.len(),
        forall|i: int| 0 <= i < nodes.len() ==> #[trigger] node_views(nodes)[i] == nodes[i]@,
    decreases nodes.len(),
{
    if nodes.len() > 0 {
        let front = nodes.drop_last();
        lemma_node_views(front);
        assert(node_views(nodes) == node_views(front).push(nodes.last()@));
        assert forall|i: int| 0 <= i < nodes.len() implies #[trigger] node_views(nodes)[i]
            == nodes[i]@ by {
            if i < front.len() {
                assert(node_views(front)[i] == front[i]@);
            }
        }
    }
}

/// The views of a list with one more node are the views of the list with the
/// view of that node behind them.
pub proof fn lemma_node_views_push(nodes: Seq<AstNode>, node: AstNode)
    ensures
        node_views(nodes.push(node)) == node_views(nodes).push(node@),
{
    assert(nodes.push(node).drop_last() =~= nodes);
}

/// Whether a token is an instruction, which belongs in a function body.
pub open spec fn is_instruction(token: TokenView) -> bool {
    !(token is Fn || token is EndFn || token is Global)
}

/// The node that an instruction token becomes at the address `pc`.
pub open spec fn node_of(token: TokenView, pc: nat) -> AstNodeView {
    match token {
        TokenView::Sum(tag, dist, operands) => AstNodeView::Sum { numbers: operands, dist, t: tag },
        TokenView::Load(dist, value) => AstNodeView::Load { dist, value },
        TokenView::Go(target) => AstNodeView::Go { target, pc: pc as u64 },
        TokenView::Radd(target, rs1) => AstNodeView::Radd { target, rs1 },
        TokenView::Rsub(target, rs1) => AstNodeView::Rsub { target, rs1 },
        TokenView::Ret => AstNodeView::Ret,
        TokenView::Nop => AstNodeView::Nop,
        _ => AstNodeView::Syscall,
    }
}

/// A function that is open: its name, the instructions read so far, and
/// the address of the first.
pub ghost struct OpenFunction {
    pub name: Seq<char>,
    pub body: Seq<AstNodeView>,
    pub pc: nat,
}

/// The state of the parser between two tokens.
pub ghost struct ParserState {
    /// The functions closed so far.
    pub functions: Seq<AstNodeView>,
    /// The address of each of them, by name.
    pub table: Map<Seq<char>, u64>,
    /// The function that is open, if one is.
    pub open: Option<OpenFunction>,
    /// The visibility that the function closed next will have.
    pub stype: SymbolType,
    /// The program counter.
    pub pc: nat,
}

impl ParserState {
    /// The state before the first token: no function yet, none open, the
    /// program counter at zero.
    pub open spec fn initial() -> ParserState {
        ParserState {
            functions: Seq::empty(),
            table: Map::empty(),
            open: None,
            stype: SymbolType::Private,
            pc: 0,
        }
    }

    /// The state after one more token, or the error that the token is.
    pub open spec fn step(self, token: TokenView) -> Result<ParserState, AstError> {
        match token {
            TokenView::Fn(name) => match self.open {
                Some(_) => Err(AstError::NestedFunction),
                None => Ok(
                    ParserState {
                        open: Some(OpenFunction { name, body: Seq::empty(), pc: self.pc }),
                        ..self
                    },
                ),
            },
            TokenView::EndFn => match self.open {
                Some(function) => Ok(
                    ParserState {
                        functions: self.functions.push(
                            AstNodeView::Function {
                                name: function.name,
                                stype: self.stype,
                                body: function.body,
                                pc: function.pc as u64,
                            },
                        ),
                        table: self.table.insert(function.name, function.pc as u64),
                        open: None,
                        stype: SymbolType::Private,
                        pc: self.pc,
                    },
                ),
                None => Err(AstError::EndFnWithoutFn),
            },
            TokenView::Global => Ok(ParserState { stype: SymbolType::Global, ..self }),
            _ => match self.open {
                Some(function) => Ok(
                    ParserState {
                        open: Some(
                            OpenFunction {
                                body: function.body.push(node_of(token, self.pc)),
                                ..function
                            },
                        ),
                        pc: self.pc + span(token),
                        ..self
                    },
                ),
                None => Err(AstError::OutsideOfFunction),
            },
        }
    }

    /// The state after a run of tokens, or the error of the first token that
    /// is one.
    pub open spec fn run(self, tokens: Seq<TokenView>) -> Result<ParserState, AstError>
        decreases tokens.len(),
    {
        if tokens.len() == 0 {
            Ok(self)
        } else {
            match self.step(tokens.first()) {
                Ok(next) => next.run(tokens.drop_first()),
                Err(e) => Err(e),
            }
        }
    }
}

/// The functions that a run of tokens makes, and the address of each by
/// name. Every function has to be closed when the tokens end.
pub open spec fn parsed(tokens: Seq<TokenView>) -> Result<
    (Seq<AstNodeView>, Map<Seq<char>, u64>),
    AstError,
> {
    match ParserState::initial().run(tokens) {
        Ok(state) => if state.open is Some {
            Err(AstError::FnNotClosed)
        } else {
            Ok((state.functions, state.table))
        },
        Err(e) => Err(e),
    }
}

/// Groups tokens into functions and gives every function and every jump its
/// address. Gives the functions in their order, and the table of their
/// addresses.
///
/// The program counter must not run beyond 64 bits.
pub fn get_from_tokens(tokens: Vec<Token>) -> (r: Result<(Vec<AstNode>, FunctionTable), AstError>)
    requires
        total_span(tokens.deep_view()) <= u64::MAX,
    ensures
        match parsed(tokens.deep_view()) {
            Ok((functions, table)) => r is Ok && node_views(r->Ok_0.0@) == functions && r->Ok_0.1@
                == table,
            Err(e) => r is Err && r->Err_0 == e,
        },
        r matches Ok((functions, table)) ==> {
            &&& is_program(node_views(functions@))
            &&& laid_out(node_views(functions@), 0)
            &&& table@ == addresses(node_views(functions@))
            &&& all_well_formed(tokens.deep_view()) ==> program_sound(node_views(functions@))
        },
{
    proof {
        lemma_parsed_laid_out(tokens.deep_view());
        if all_well_formed(tokens.deep_view()) {
            lemma_parsed_sound(tokens.deep_view());
        }
    }
    let ghost all = tokens.deep_view();
    let ghost raw = tokens@;
    let ghost mut state = ParserState::initial();
    let mut stype = SymbolType::Private;
    let mut functions: Vec<AstNode> = Vec::new();
    let mut table = FunctionTable::new();
    let mut open: bool = false;
    let mut name: String = String::new();
    let mut body: Vec<AstNode> = Vec::new();
    let mut entry: u64 = 0;
    let mut current_pc: u64 = 0;
    assert(all.skip(0) =~= all);
    assert(all.take(0) =~= Seq::<TokenView>::empty());
    for token in it: tokens
        invariant
            it.seq() == raw,
            all == tokens.deep_view(),
            all.len() == raw.len(),
            forall|k: int| 0 <= k < raw.len() ==> #[trigger] all[k] == raw[k]@,
            total_span(all) <= u64::MAX,
            ParserState::initial().run(all) == state.run(all.skip(it.index() as int)),
            state.pc == total_span(all.take(it.index() as int)),
            node_views(functions@) == state.functions,
            table@ == state.table,
            stype == state.stype,
            current_pc == state.pc,
            open == (state.open is Some),
            open ==> state.open->Some_0 == (OpenFunction {
                name: name@,
                body: node_views(body@),
                pc: entry as nat,
            }),
    {
        let ghost i = it.index() as int;
        let ghost view = token@;
        proof {
            assert(view == all[i]);
            assert(all.skip(i).first() == all[i]);
            assert(all.skip(i).drop_first() =~= all.skip(i + 1));
            assert(all.take(i + 1).drop_last() =~= all.take(i));
            lemma_total_span_monotone(all, i + 1);
        }
        match token {
            Token::Fn(function_name) => {
                if open {
                    return Err(AstError::NestedFunction);
                }
                open = true;
                name = function_name;
                body = Vec::new();
                entry = current_pc;
            },
            Token::EndFn => {
                if !open {
                    return Err(AstError::EndFnWithoutFn);
                }
                table.insert(name.clone(), entry);
                let ghost closed = functions@;
                let function = AstNode::Function { name, stype, body, pc: entry };
                proof {
                    lemma_node_views_push(closed, function);
                }
                functions.push(function);
                name = String::new();
                body = Vec::new();
                open = false;
                stype = SymbolType::Private;
            },
            Token::Global => {
                stype = SymbolType::Global;
            },
            Token::Sum(tag, dist, operands) => {
                if !open {
                    return Err(AstError::OutsideOfFunction);
                }
                let deferred = count_deferred(&operands);
                let node = AstNode::Sum { numbers: operands, dist, t: tag };
                proof {
                    lemma_node_views_push(body@, node);
                }
                body.push(node);
                current_pc = current_pc + 4 + deferred as u64;
            },
            Token::Load(dist, value) => {
                if !open {
                    return Err(AstError::OutsideOfFunction);
                }
                let node = AstNode::Load { dist, value };
                proof {
                    lemma_node_views_push(body@, node);
                }
                body.push(node);
                current_pc = current_pc + 4;
            },
            Token::Syscall => {
                if !open {
                    return Err(AstError::OutsideOfFunction);
                }
                proof {
                    lemma_node_views_push(body@, AstNode::Syscall);
                }
                body.push(AstNode::Syscall);
                current_pc = current_pc + 4;
            },
            Token::Go(target) => {
                if !open {
                    return Err(AstError::OutsideOfFunction);
                }
                let node = AstNode::Go { target, pc: current_pc };
                proof {
                    lemma_node_views_push(body@, node);
                }
                body.push(node);
                current_pc = current_pc + 4;
            },
            Token::Radd(target, rs1) => {
                if !open {
                    return Err(AstError::OutsideOfFunction);
                }
                let node = AstNode::Radd { target, rs1 };
                proof {
                    lemma_node_views_push(body@, node);
                }
                body.push(node);
                current_pc = current_pc + 4;
            },
            Token::Rsub(target, rs1) => {
                if !open {
                    return Err(AstError::OutsideOfFunction);
                }
                let node = AstNode::Rsub { target, rs1 };
                proof {
                    lemma_node_views_push(body@, node);
                }
                body.push(node);
                current_pc = current_pc + 4;
            },
            Token::Ret => {
                if !open {
                    return Err(AstError::OutsideOfFunction);
                }
                proof {
                    lemma_node_views_push(body@, AstNode::Ret);
                }
                body.push(AstNode::Ret);
                current_pc = current_pc + 4;
            },
            Token::Nop => {
                if !open {
                    return Err(AstError::OutsideOfFunction);
                }
                proof {
                    lemma_node_views_push(body@, AstNode::Nop);
                }
                body.push(AstNode::Nop);
                current_pc = current_pc + 4;
            },
        }
        proof {
            state = state.step(view)->Ok_0;
        }
    }
    assert(all.skip(all.len() as int) =~= Seq::<TokenView>::empty());
    if open {
        return Err(AstError::FnNotClosed);
    }
    Ok((functions, table))
}

} // verus!
