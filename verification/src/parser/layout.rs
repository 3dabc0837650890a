//! Where the parser puts things: every instruction stands right behind the
//! one before it, every function begins where the last one ended, and the
//! table of addresses says so.

use super::ast::{node_of, parsed, AstNodeView, ParserState};
use super::evaluator::deferred_count;
use super::token::{all_well_formed, of_width, span, total_span, TokenView};
use super::types::Width;
use vstd::prelude::*;

verus! {

/// The room that a node takes in the address space: 4 for an instruction, 4
/// and the number of its deferred operands for a sum, and for a function the
/// room of its body.
pub open spec fn node_span(node: AstNodeView) -> nat
    decreases node,
{
    match node {
        AstNodeView::Function { body, .. } => nodes_span(body),
        AstNodeView::Sum { numbers, .. } => 4 + deferred_count(numbers),
        _ => 4,
    }
}

/// The room that a list of nodes takes in the address space.
pub open spec fn nodes_span(nodes: Seq<AstNodeView>) -> nat
    decreases nodes,
{
    if nodes.len() == 0 {
        0
    } else {
        nodes_span(nodes.drop_last()) + node_span(nodes.last())
    }
}

/// Whether a node that stands at `address` knows it: a function begins
/// there and its body is laid out from there on, a jump has it as its
/// origin.
pub open spec fn placed(node: AstNodeView, address: nat) -> bool
    decreases node,
{
    match node {
        AstNodeView::Function { body, pc, .. } => pc == address && laid_out(body, address),
        AstNodeView::Go { pc, .. } => pc == address,
        _ => true,
    }
}

/// Whether the nodes of a list stand one right behind the other from `start`
/// on, no address left out and none used twice.
pub open spec fn laid_out(nodes: Seq<AstNodeView>, start: nat) -> bool
    decreases nodes,
{
    nodes.len() == 0 || (laid_out(nodes.drop_last(), start) && placed(
        nodes.last(),
        start + nodes_span(nodes.drop_last()),
    ))
}

/// The address of every function of a list by its name; of two functions
/// with one name, the later one counts.
pub open spec fn addresses(functions: Seq<AstNodeView>) -> Map<Seq<char>, u64>
    decreases functions.len(),
{
    if functions.len() == 0 {
        Map::empty()
    } else {
        match functions.last() {
            AstNodeView::Function { name, pc, .. } => addresses(functions.drop_last()).insert(
                name,
                pc,
            ),
            _ => addresses(functions.drop_last()),
        }
    }
}

/// Whether the nodes are instructions, none of them a function.
pub open spec fn is_body(nodes: Seq<AstNodeView>) -> bool {
    forall|i: int| 0 <= i < nodes.len() ==> !(#[trigger] nodes[i] is Function)
}

/// Whether the nodes are functions whose bodies hold instructions only:
/// no function inside another.
pub open spec fn is_program(nodes: Seq<AstNodeView>) -> bool {
    forall|i: int|
        0 <= i < nodes.len() ==> (#[trigger] nodes[i] matches AstNodeView::Function { body, .. }
            && is_body(body))
}

/// Whether every sum among the nodes names its width, has two operands or
/// more, and holds integers of its width only.
pub open spec fn sums_sound(nodes: Seq<AstNodeView>) -> bool {
    forall|i: int|
        0 <= i < nodes.len() ==> (#[trigger] nodes[i] matches AstNodeView::Sum { numbers, t, .. }
            ==> {
            &&& Width::tagged(t) is Some
            &&& numbers.len() >= 2
            &&& of_width(numbers, Width::tagged(t)->Some_0)
        })
}

/// Whether every sum of every function is sound.
pub open spec fn program_sound(functions: Seq<AstNodeView>) -> bool {
    forall|i: int|
        0 <= i < functions.len() ==> (#[trigger] functions[i] matches AstNodeView::Function {
            body,
            ..
        } ==> sums_sound(body))
}

impl ParserState {
    /// Whether every sum that the parser holds is sound.
    pub open spec fn sound(self) -> bool {
        &&& program_sound(self.functions)
        &&& self.open matches Some(function) ==> sums_sound(function.body)
    }

    /// A well-formed token keeps the sums of the parser sound.
    pub proof fn lemma_step_sound(self, token: TokenView)
        requires
            self.sound(),
            token.well_formed(),
            self.step(token) is Ok,
        ensures
            self.step(token)->Ok_0.sound(),
    {
        let next = self.step(token)->Ok_0;
        match token {
            TokenView::Fn(_) => {},
            TokenView::EndFn => {
                assert forall|i: int| 0 <= i < next.functions.len() implies (
                #[trigger] next.functions[i] matches AstNodeView::Function { body, .. }
                    ==> sums_sound(body)) by {
                    if i < self.functions.len() {
                        assert(next.functions[i] == self.functions[i]);
                    }
                }
            },
            TokenView::Global => {},
            _ => {
                let before = self.open->Some_0.body;
                let body = next.open->Some_0.body;
                assert forall|i: int| 0 <= i < body.len() implies (#[trigger] body[i] matches AstNodeView::Sum {
                    numbers,
                    t,
                    ..
                } ==> {
                    &&& Width::tagged(t) is Some
                    &&& numbers.len() >= 2
                    &&& of_width(numbers, Width::tagged(t)->Some_0)
                }) by {
                    if i < before.len() {
                        assert(body[i] == before[i]);
                    }
                }
            },
        }
    }

    /// A run of well-formed tokens keeps the sums of the parser sound.
    pub proof fn lemma_run_sound(self, tokens: Seq<TokenView>)
        requires
            self.sound(),
            all_well_formed(tokens),
            self.run(tokens) is Ok,
        ensures
            self.run(tokens)->Ok_0.sound(),
        decreases tokens.len(),
    {
        if tokens.len() > 0 {
            assert(tokens.first().well_formed());
            self.lemma_step_sound(tokens.first());
            let rest = tokens.drop_first();
            assert forall|i: int| 0 <= i < rest.len() implies (#[trigger] rest[i]).well_formed() by {
                assert(rest[i] == tokens[i + 1]);
            }
            self.step(tokens.first())->Ok_0.lemma_run_sound(rest);
        }
    }

    /// What holds of the parser between any two tokens: the closed functions
    /// are laid out from address zero on, the open one begins behind them,
    /// the program counter stands behind the last instruction, and the table
    /// has the address of every closed function.
    pub open spec fn consistent(self) -> bool {
        &&& laid_out(self.functions, 0)
        &&& is_program(self.functions)
        &&& self.table == addresses(self.functions)
        &&& match self.open {
            Some(function) => {
                &&& function.pc == nodes_span(self.functions)
                &&& laid_out(function.body, function.pc)
                &&& is_body(function.body)
                &&& self.pc == function.pc + nodes_span(function.body)
            },
            None => self.pc == nodes_span(self.functions),
        }
    }

    /// A token that the parser takes keeps it consistent, as long as the
    /// program counter stays within 64 bits.
    pub proof fn lemma_step_consistent(self, token: TokenView)
        requires
            self.consistent(),
            self.pc + span(token) <= u64::MAX,
            self.step(token) is Ok,
        ensures
            self.step(token)->Ok_0.consistent(),
            self.step(token)->Ok_0.pc == self.pc + span(token),
    {
        let next = self.step(token)->Ok_0;
        match token {
            TokenView::Fn(name) => {
                assert(next.open->Some_0.body =~= Seq::<AstNodeView>::empty());
            },
            TokenView::EndFn => {
                let function = self.open->Some_0;
                assert(next.functions.drop_last() =~= self.functions);
                assert(placed(next.functions.last(), nodes_span(self.functions)));
                assert(node_span(next.functions.last()) == nodes_span(function.body));
                assert forall|i: int| 0 <= i < next.functions.len() implies (
                #[trigger] next.functions[i] matches AstNodeView::Function { body, .. } && is_body(
                    body,
                )) by {
                    if i < self.functions.len() {
                        assert(next.functions[i] == self.functions[i]);
                    }
                }
            },
            TokenView::Global => {},
            _ => {
                let function = self.open->Some_0;
                let node = node_of(token, self.pc);
                let body = function.body.push(node);
                assert(body.drop_last() =~= function.body);
                assert(body.last() == node);
                assert(node_span(node) == span(token));
                assert(placed(node, self.pc));
                assert forall|i: int| 0 <= i < body.len() implies !(#[trigger] body[i]
                    is Function) by {
                    if i < function.body.len() {
                        assert(body[i] == function.body[i]);
                    }
                }
            },
        }
    }

    /// A run of tokens moves the program counter by the sum of what each
    /// token moves it by, and keeps a consistent parser consistent, as long
    /// as the program counter stays within 64 bits.
    pub proof fn lemma_run_consistent(self, tokens: Seq<TokenView>)
        requires
            self.consistent(),
            self.pc + total_span(tokens) <= u64::MAX,
            self.run(tokens) is Ok,
        ensures
            self.run(tokens)->Ok_0.consistent(),
            self.run(tokens)->Ok_0.pc == self.pc + total_span(tokens),
        decreases tokens.len(),
    {
        if tokens.len() > 0 {
            lemma_total_span_first(tokens);
            self.lemma_step_consistent(tokens.first());
            self.step(tokens.first())->Ok_0.lemma_run_consistent(tokens.drop_first());
        }
    }
}

/// What a run of tokens moves the program counter by can be counted from
/// either end.
pub proof fn lemma_total_span_first(tokens: Seq<TokenView>)
    requires
        tokens.len() > 0,
    ensures
        total_span(tokens) == span(tokens.first()) + total_span(tokens.drop_first()),
    decreases tokens.len(),
{
    if tokens.len() == 1 {
        assert(tokens.drop_last() =~= Seq::<TokenView>::empty());
        assert(tokens.drop_first() =~= Seq::<TokenView>::empty());
    } else {
        lemma_total_span_first(tokens.drop_last());
        assert(tokens.drop_last().drop_first() =~= tokens.drop_first().drop_last());
    }
}

/// The program that the parser makes never skips or repeats an address:
/// its functions, none inside another, stand one right behind the other
/// from address zero on, two instructions in a row are 4 apart, or 4 and
/// the number of its deferred operands after a sum, and the table has the
/// address of every function.
pub proof fn lemma_parsed_laid_out(tokens: Seq<TokenView>)
    requires
        total_span(tokens) <= u64::MAX,
    ensures
        parsed(tokens) matches Ok((functions, table)) ==> {
            &&& is_program(functions)
            &&& laid_out(functions, 0)
            &&& table == addresses(functions)
            &&& nodes_span(functions) == total_span(tokens)
        },
{
    if parsed(tokens) is Ok {
        ParserState::initial().lemma_run_consistent(tokens);
    }
}

/// A program made from well-formed tokens has sound sums only: each names
/// its width and has two operands or more, all of that width.
pub proof fn lemma_parsed_sound(tokens: Seq<TokenView>)
    requires
        all_well_formed(tokens),
    ensures
        parsed(tokens) matches Ok((functions, _)) ==> program_sound(functions),
{
    if parsed(tokens) is Ok {
        ParserState::initial().lemma_run_sound(tokens);
    }
}

} // verus!
