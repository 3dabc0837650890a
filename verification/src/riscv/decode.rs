//! The code generator: from the syntax tree and the table of function
//! addresses to machine code.

use super::immediate::{addi, ecall, immediate_word, OPCODE_ADDI, OPCODE_SYSTEM};
use super::jmp::{
    displacement, in_reach, jal, jalr, jump_word, reachable, JmpError, OPCODE_JALR,
};
use super::register::{register_word, FUNCT7_ADD, FUNCT7_SUB, OPCODE_OP};
use super::regs::Reg;
use super::word::le_bytes;
use crate::parser::ast::{lemma_node_views, node_views, AstNode, AstNodeView};
use crate::parser::evaluator::{deferred_count, evaluate, evaluated, lemma_evaluated_defers};
use crate::parser::table::{address_of, FunctionTable};
use crate::parser::types::{TypeError, TypeErrorView, TypeView, Width};
use vstd::prelude::*;
use vstd::std_specs::convert::FromSpecImpl;

verus! {

/// Why a node yields no machine code.
#[derive(Debug, PartialEq, Eq, Clone)]
pub enum DecodeError {
    /// The name is that of no register.
    InvalidRegister(String),
    /// No function of this name is in the table.
    FnNotFound(String),
    /// A jump cannot be encoded.
    JmpError(JmpError),
    /// A sum cannot be evaluated.
    TypeError(TypeError),
}

/// What a [`DecodeError`] stands for.
pub ghost enum DecodeErrorView {
    InvalidRegister(Seq<char>),
    FnNotFound(Seq<char>),
    JmpError(JmpError),
    TypeError(TypeErrorView),
}

impl View for DecodeError {
    type V = DecodeErrorView;

    open spec fn view(&self) -> DecodeErrorView {
        match self {
            DecodeError::InvalidRegister(name) => DecodeErrorView::InvalidRegister(name@),
            DecodeError::FnNotFound(name) => DecodeErrorView::FnNotFound(name@),
            DecodeError::JmpError(e) => DecodeErrorView::JmpError(*e),
            DecodeError::TypeError(e) => DecodeErrorView::TypeError(e@),
        }
    }
}

impl From<JmpError> for DecodeError {
    fn from(e: JmpError) -> (error: DecodeError)
    {
        DecodeError::JmpError(e)
    }
}

impl FromSpecImpl<JmpError> for DecodeError {
    open spec fn obeys_from_spec() -> bool {
        true
    }

    open spec fn from_spec(e: JmpError) -> DecodeError {
        DecodeError::JmpError(e)
    }
}

impl From<TypeError> for DecodeError {
    fn from(e: TypeError) -> (error: DecodeError)
    {
        DecodeError::TypeError(e)
    }
}

impl FromSpecImpl<TypeError> for DecodeError {
    open spec fn obeys_from_spec() -> bool {
        true
    }

    open spec fn from_spec(e: TypeError) -> DecodeError {
        DecodeError::TypeError(e)
    }
}

/// The bytes of a register addition `rd = rs1 + rs2`.
pub open spec fn add_code(rd: Reg, rs1: Reg, rs2: Reg) -> Seq<u8> {
    le_bytes(
        register_word(OPCODE_OP, 0, FUNCT7_ADD, rd.encoding(), rs1.encoding(), rs2.encoding()),
    )
}

/// The bytes of a register subtraction `rd = rs1 - rs2`.
pub open spec fn sub_code(rd: Reg, rs1: Reg, rs2: Reg) -> Seq<u8> {
    le_bytes(
        register_word(OPCODE_OP, 0, FUNCT7_SUB, rd.encoding(), rs1.encoding(), rs2.encoding()),
    )
}

/// The bytes of an add-immediate `rd = rs1 + value`.
pub open spec fn addi_code(rd: Reg, rs1: Reg, value: i64) -> Seq<u8> {
    le_bytes(immediate_word(OPCODE_ADDI, rd.encoding(), rs1.encoding(), value))
}

/// The additions that bring the deferred registers of a sum into `dist`, one
/// for each register and in their order. The first name that is no register
/// is an error.
pub open spec fn deferred_code(dist: Reg, deferred: Seq<Seq<char>>) -> Result<
    Seq<u8>,
    DecodeErrorView,
>
    decreases deferred.len(),
{
    if deferred.len() == 0 {
        Ok(Seq::empty())
    } else {
        match deferred_code(dist, deferred.drop_last()) {
            Ok(front) => match Reg::named(deferred.last()) {
                Some(reg) => Ok(front + add_code(dist, dist, reg)),
                None => Err(DecodeErrorView::InvalidRegister(deferred.last())),
            },
            Err(e) => Err(e),
        }
    }
}

/// The code of a sum: one add-immediate that puts the total of the integers
/// into `dist`, then one addition for each deferred register.
pub open spec fn sum_code(numbers: Seq<TypeView>, dist: Seq<char>, width: Width) -> Result<
    Seq<u8>,
    DecodeErrorView,
> {
    match Reg::named(dist) {
        Some(reg) => match evaluated(width, numbers) {
            Ok((total, deferred)) => match deferred_code(reg, deferred) {
                Ok(adds) => match total.immediate() {
                    Ok(value) => Ok(addi_code(reg, Reg::Zero, value) + adds),
                    Err(e) => Err(DecodeErrorView::TypeError(e)),
                },
                Err(e) => Err(e),
            },
            Err(e) => Err(DecodeErrorView::TypeError(e)),
        },
        None => Err(DecodeErrorView::InvalidRegister(dist)),
    }
}

/// The code of an operation on two registers, where `code` is the word for
/// the registers once they are found. The target is looked up first.
pub open spec fn pair_code(
    target: Seq<char>,
    source: Seq<char>,
    code: spec_fn(Reg, Reg) -> Seq<u8>,
) -> Result<Seq<u8>, DecodeErrorView> {
    match Reg::named(target) {
        Some(rd) => match Reg::named(source) {
            Some(rs) => Ok(code(rd, rs)),
            None => Err(DecodeErrorView::InvalidRegister(source)),
        },
        None => Err(DecodeErrorView::InvalidRegister(target)),
    }
}

/// The code of a jump from `pc` to the function `target`, which leaves the
/// return address in `ra`.
pub open spec fn go_code(target: Seq<char>, pc: u64, table: Map<Seq<char>, u64>) -> Result<
    Seq<u8>,
    DecodeErrorView,
> {
    match address_of(table, target) {
        Some(address) => if displacement(address, pc) % 2 != 0 {
            Err(DecodeErrorView::JmpError(JmpError::NonAlignedAddress))
        } else {
            Ok(le_bytes(jump_word(displacement(address, pc) as i64, Reg::Ra.encoding())))
        },
        None => Err(DecodeErrorView::FnNotFound(target)),
    }
}

/// Whether a node can be encoded at all: the width tag of a sum names a
/// width, and a jump whose target is in the table reaches it.
pub open spec fn encodable(node: AstNodeView, table: Map<Seq<char>, u64>) -> bool
    decreases node,
{
    match node {
        AstNodeView::Function { body, .. } => all_encodable(body, table),
        AstNodeView::Sum { t, .. } => Width::tagged(t) is Some,
        AstNodeView::Go { target, pc } => table.contains_key(target) ==> reachable(
            table[target],
            pc,
        ),
        _ => true,
    }
}

/// Whether every node of a list can be encoded.
pub open spec fn all_encodable(nodes: Seq<AstNodeView>, table: Map<Seq<char>, u64>) -> bool
    decreases nodes,
{
    nodes.len() == 0 || (all_encodable(nodes.drop_last(), table) && encodable(nodes.last(), table))
}

/// The machine code of a node. A function is the code of its body and
/// nothing more.
pub open spec fn node_code(node: AstNodeView, table: Map<Seq<char>, u64>) -> Result<
    Seq<u8>,
    DecodeErrorView,
>
    decreases node,
{
    match node {
        AstNodeView::Function { body, .. } => nodes_code(body, table),
        AstNodeView::Sum { numbers, dist, t } => sum_code(numbers, dist, Width::tagged(t)->Some_0),
        AstNodeView::Radd { target, rs1 } => pair_code(
            target,
            rs1,
            |rd: Reg, rs: Reg| add_code(rd, rd, rs),
        ),
        AstNodeView::Rsub { target, rs1 } => pair_code(
            target,
            rs1,
            |rd: Reg, rs: Reg| sub_code(rd, rd, rs),
        ),
        AstNodeView::Load { dist, value } => match Reg::named(dist) {
            Some(reg) => Ok(addi_code(reg, Reg::Zero, value)),
            None => Err(DecodeErrorView::InvalidRegister(dist)),
        },
        AstNodeView::Syscall => Ok(le_bytes(immediate_word(OPCODE_SYSTEM, 0, 0, 0))),
        AstNodeView::Go { target, pc } => go_code(target, pc, table),
        AstNodeView::Ret => Ok(
            le_bytes(immediate_word(OPCODE_JALR, Reg::Zero.encoding(), Reg::Ra.encoding(), 0)),
        ),
        AstNodeView::Nop => Ok(addi_code(Reg::Zero, Reg::Zero, 0)),
    }
}

/// The machine code of a list of nodes: the code of each, one behind the
/// other. The first node that has none is the error of the list.
pub open spec fn nodes_code(nodes: Seq<AstNodeView>, table: Map<Seq<char>, u64>) -> Result<
    Seq<u8>,
    DecodeErrorView,
>
    decreases nodes,
{
    if nodes.len() == 0 {
        Ok(Seq::empty())
    } else {
        match nodes_code(nodes.drop_last(), table) {
            Ok(front) => match node_code(nodes.last(), table) {
                Ok(code) => Ok(front + code),
                Err(e) => Err(e),
            },
            Err(e) => Err(e),
        }
    }
}

/// How many instructions a node stands for: one, but for a sum, which is
/// one and one more for each deferred operand, and for a function, which is
/// the instructions of its body.
pub open spec fn instructions(node: AstNodeView) -> nat
    decreases node,
{
    match node {
        AstNodeView::Function { body, .. } => all_instructions(body),
        AstNodeView::Sum { numbers, .. } => 1 + deferred_count(numbers),
        _ => 1,
    }
}

/// How many instructions a list of nodes stands for.
pub open spec fn all_instructions(nodes: Seq<AstNodeView>) -> nat
    decreases nodes,
{
    if nodes.len() == 0 {
        0
    } else {
        all_instructions(nodes.drop_last()) + instructions(nodes.last())
    }
}

/// Each deferred register takes one word.
pub proof fn lemma_deferred_code_length(dist: Reg, deferred: Seq<Seq<char>>)
    ensures
        deferred_code(dist, deferred) matches Ok(bytes) ==> bytes.len() == 4 * deferred.len(),
    decreases deferred.len(),
{
    if deferred.len() > 0 {
        lemma_deferred_code_length(dist, deferred.drop_last());
    }
}

/// The code of a node is made of whole words, one for each instruction.
pub proof fn lemma_node_code_length(node: AstNodeView, table: Map<Seq<char>, u64>)
    ensures
        node_code(node, table) matches Ok(bytes) ==> bytes.len() == 4 * instructions(node),
    decreases node,
{
    match node {
        AstNodeView::Function { body, .. } => {
            lemma_nodes_code_length(body, table);
        },
        AstNodeView::Sum { numbers, dist, t } => {
            let width = Width::tagged(t)->Some_0;
            lemma_evaluated_defers(width, numbers);
            match Reg::named(dist) {
                Some(reg) => match evaluated(width, numbers) {
                    Ok((total, deferred)) => {
                        lemma_deferred_code_length(reg, deferred);
                    },
                    Err(_) => {},
                },
                None => {},
            }
        },
        _ => {},
    }
}

/// The code of a list of nodes is made of whole words, one for each
/// instruction.
pub proof fn lemma_nodes_code_length(nodes: Seq<AstNodeView>, table: Map<Seq<char>, u64>)
    ensures
        nodes_code(nodes, table) matches Ok(bytes) ==> bytes.len() == 4 * all_instructions(nodes),
    decreases nodes,
{
    if nodes.len() > 0 {
        lemma_nodes_code_length(nodes.drop_last(), table);
        lemma_node_code_length(nodes.last(), table);
    }
}

/// Whether what came back is the code, or the error, that was expected.
pub open spec fn is_code(
    found: Result<Vec<u8>, DecodeError>,
    expected: Result<Seq<u8>, DecodeErrorView>,
) -> bool {
    match expected {
        Ok(bytes) => found is Ok && found->Ok_0@ == bytes,
        Err(e) => found is Err && found->Err_0@ == e,
    }
}

/// Looks a register up by name.
fn register(name: &String) -> (r: Result<Reg, DecodeError>)
    ensures
        match Reg::named(name@) {
            Some(reg) => r is Ok && r->Ok_0 == reg,
            None => r is Err && r->Err_0@ == DecodeErrorView::InvalidRegister(name@),
        },
{
    match Reg::lookup(name.as_str()) {
        Some(reg) => Ok(reg),
        None => Err(DecodeError::InvalidRegister(name.clone())),
    }
}

/// The additions that bring the deferred registers of a sum into `dist`.
fn deferred_adds(dist: Reg, deferred: &Vec<String>) -> (r: Result<Vec<u8>, DecodeError>)
    ensures
        is_code(r, deferred_code(dist, deferred.deep_view())),
{
    let ghost names = deferred.deep_view();
    let mut adds: Vec<u8> = Vec::new();
    let mut i: usize = 0;
    assert(names.take(0) =~= Seq::<Seq<char>>::empty());
    while i < deferred.len()
        invariant
            i <= deferred@.len(),
            names == deferred.deep_view(),
            deferred_code(dist, names.take(i as int)) == Ok::<Seq<u8>, DecodeErrorView>(adds@),
        decreases deferred@.len() - i,
    {
        assert(names.take(i + 1).drop_last() =~= names.take(i as int));
        assert(names.take(i + 1).last() == deferred@[i as int]@);
        let reg = match register(&deferred[i]) {
            Ok(reg) => reg,
            Err(e) => {
                proof {
                    lemma_deferred_code_fails(dist, names, i + 1);
                }
                return Err(e);
            },
        };
        let mut code = crate::riscv::register::add(&dist, &dist, &reg);
        adds.append(&mut code);
        i += 1;
    }
    assert(names.take(i as int) =~= names);
    Ok(adds)
}

/// Once a beginning of the deferred registers has no code, the whole list
/// has none, and for the same reason.
pub proof fn lemma_deferred_code_fails(dist: Reg, deferred: Seq<Seq<char>>, n: int)
    requires
        0 <= n <= deferred.len(),
        deferred_code(dist, deferred.take(n)) is Err,
    ensures
        deferred_code(dist, deferred) == deferred_code(dist, deferred.take(n)),
    decreases deferred.len() - n,
{
    if n == deferred.len() {
        assert(deferred.take(n) =~= deferred);
    } else {
        assert(deferred.take(n + 1).drop_last() =~= deferred.take(n));
        lemma_deferred_code_fails(dist, deferred, n + 1);
    }
}

/// Once a beginning of a list of nodes has no code, the whole list has none,
/// and for the same reason.
pub proof fn lemma_nodes_code_fails(
    nodes: Seq<AstNodeView>,
    table: Map<Seq<char>, u64>,
    n: int,
)
    requires
        0 <= n <= nodes.len(),
        nodes_code(nodes.take(n), table) is Err,
    ensures
        nodes_code(nodes, table) == nodes_code(nodes.take(n), table),
    decreases nodes.len() - n,
{
    if n == nodes.len() {
        assert(nodes.take(n) =~= nodes);
    } else {
        assert(nodes.take(n + 1).drop_last() =~= nodes.take(n));
        lemma_nodes_code_fails(nodes, table, n + 1);
    }
}

/// Every node of a list that can be encoded can be encoded.
pub proof fn lemma_all_encodable(nodes: Seq<AstNodeView>, table: Map<Seq<char>, u64>, i: int)
    requires
        all_encodable(nodes, table),
        0 <= i < nodes.len(),
    ensures
        encodable(nodes[i], table),
    decreases nodes.len(),
{
    if i < nodes.len() - 1 {
        lemma_all_encodable(nodes.drop_last(), table, i);
    }
}

/// The machine code of one node.
///
/// The node has to be one that can be encoded; [`can_encode`] tells.
pub fn node_to_opcode(node: &AstNode, functions: &FunctionTable) -> (r: Result<
    Vec<u8>,
    DecodeError,
>)
    requires
        encodable(node@, functions@),
    ensures
        is_code(r, node_code(node@, functions@)),
        r matches Ok(bytes) ==> bytes@.len() == 4 * instructions(node@),
    decreases node,
{
    proof {
        lemma_node_code_length(node@, functions@);
    }
    match node {
        AstNode::Function { body, .. } => from_nodes(body, functions),
        AstNode::Sum { numbers, dist, t } => {
            let reg = match register(dist) {
                Ok(reg) => reg,
                Err(e) => {
                    return Err(e);
                },
            };
            let width = Width::from_tag(t.as_str()).unwrap();
            let (total, deferred) = match evaluate(width, numbers) {
                Ok(found) => found,
                Err(e) => {
                    return Err(DecodeError::TypeError(e));
                },
            };
            let mut adds = match deferred_adds(reg, &deferred) {
                Ok(adds) => adds,
                Err(e) => {
                    return Err(e);
                },
            };
            let value = match total.to_immediate() {
                Ok(value) => value,
                Err(e) => {
                    return Err(DecodeError::TypeError(e));
                },
            };
            let mut opcode = addi(reg, Reg::Zero, value);
            opcode.append(&mut adds);
            Ok(opcode)
        },
        AstNode::Radd { target, rs1 } => {
            let target_reg = match register(target) {
                Ok(reg) => reg,
                Err(e) => {
                    return Err(e);
                },
            };
            let rs1_reg = match register(rs1) {
                Ok(reg) => reg,
                Err(e) => {
                    return Err(e);
                },
            };
            Ok(crate::riscv::register::add(&target_reg, &target_reg, &rs1_reg))
        },
        AstNode::Rsub { target, rs1 } => {
            let target_reg = match register(target) {
                Ok(reg) => reg,
                Err(e) => {
                    return Err(e);
                },
            };
            let rs1_reg = match register(rs1) {
                Ok(reg) => reg,
                Err(e) => {
                    return Err(e);
                },
            };
            Ok(crate::riscv::register::sub(&target_reg, &target_reg, &rs1_reg))
        },
        AstNode::Load { dist, value } => {
            let reg = match register(dist) {
                Ok(reg) => reg,
                Err(e) => {
                    return Err(e);
                },
            };
            Ok(addi(reg, Reg::Zero, *value))
        },
        AstNode::Syscall => Ok(ecall()),
        AstNode::Go { target, pc } => {
            let target_address = match functions.get(target.as_str()) {
                Some(address) => address,
                None => {
                    return Err(DecodeError::FnNotFound(target.clone()));
                },
            };
            match jal(target_address, *pc, Reg::Ra) {
                Ok(opcode) => Ok(opcode),
                Err(e) => Err(DecodeError::JmpError(e)),
            }
        },
        AstNode::Ret => Ok(jalr(Reg::Zero, Reg::Ra, 0)),
        AstNode::Nop => Ok(addi(Reg::Zero, Reg::Zero, 0)),
    }
}

/// The machine code of a list of nodes, one behind the other.
///
/// Every node has to be one that can be encoded; [`can_encode_all`] tells.
pub fn from_nodes(nodes: &Vec<AstNode>, functions: &FunctionTable) -> (r: Result<
    Vec<u8>,
    DecodeError,
>)
    requires
        all_encodable(node_views(nodes@), functions@),
    ensures
        is_code(r, nodes_code(node_views(nodes@), functions@)),
        r matches Ok(bytes) ==> bytes@.len() == 4 * all_instructions(node_views(nodes@)),
    decreases nodes,
{
    proof {
        lemma_nodes_code_length(node_views(nodes@), functions@);
    }
    let ghost views = node_views(nodes@);
    let mut combined_opcode: Vec<u8> = Vec::new();
    let mut i: usize = 0;
    proof {
        lemma_node_views(nodes@);
        assert(views.take(0) =~= Seq::<AstNodeView>::empty());
    }
    while i < nodes.len()
        invariant
            i <= nodes@.len(),
            views == node_views(nodes@),
            views.len() == nodes@.len(),
            forall|k: int| 0 <= k < nodes@.len() ==> #[trigger] views[k] == nodes@[k]@,
            all_encodable(views, functions@),
            nodes_code(views.take(i as int), functions@) == Ok::<Seq<u8>, DecodeErrorView>(
                combined_opcode@,
            ),
        decreases nodes@.len() - i,
    {
        proof {
            assert(views.take(i + 1).drop_last() =~= views.take(i as int));
            assert(views.take(i + 1).last() == nodes@[i as int]@);
            lemma_all_encodable(views, functions@, i as int);
        }
        let mut node_opcode = match node_to_opcode(&nodes[i], functions) {
            Ok(opcode) => opcode,
            Err(e) => {
                proof {
                    lemma_nodes_code_fails(views, functions@, i + 1);
                }
                return Err(e);
            },
        };
        combined_opcode.append(&mut node_opcode);
        i += 1;
    }
    assert(views.take(i as int) =~= views);
    Ok(combined_opcode)
}

/// Whether a node can be encoded at all.
pub fn can_encode(node: &AstNode, functions: &FunctionTable) -> (ok: bool)
    ensures
        ok == encodable(node@, functions@),
    decreases node,
{
    match node {
        AstNode::Function { body, .. } => can_encode_all(body, functions),
        AstNode::Sum { t, .. } => Width::from_tag(t.as_str()).is_some(),
        AstNode::Go { target, pc } => match functions.get(target.as_str()) {
            Some(address) => in_reach(address, *pc),
            None => true,
        },
        _ => true,
    }
}

/// Whether every node of a list can be encoded.
pub fn can_encode_all(nodes: &Vec<AstNode>, functions: &FunctionTable) -> (ok: bool)
    ensures
        ok == all_encodable(node_views(nodes@), functions@),
    decreases nodes,
{
    let ghost views = node_views(nodes@);
    let mut i: usize = 0;
    proof {
        lemma_node_views(nodes@);
        assert(views.take(0) =~= Seq::<AstNodeView>::empty());
    }
    while i < nodes.len()
        invariant
            i <= nodes@.len(),
            views == node_views(nodes@),
            views.len() == nodes@.len(),
            forall|k: int| 0 <= k < nodes@.len() ==> #[trigger] views[k] == nodes@[k]@,
            all_encodable(views.take(i as int), functions@),
        decreases nodes@.len() - i,
    {
        proof {
            assert(views.take(i + 1).drop_last() =~= views.take(i as int));
            assert(views.take(i + 1).last() == nodes@[i as int]@);
        }
        if !can_encode(&nodes[i], functions) {
            proof {
                if all_encodable(views, functions@) {
                    lemma_all_encodable(views, functions@, i as int);
                }
            }
            return false;
        }
        i += 1;
    }
    assert(views.take(i as int) =~= views);
    true
}

} // verus!
