//! The immediate instruction format: a destination register, one source
//! register and a constant packed into one word.

use super::regs::Reg;
use super::word::{le_bytes, to_le_bytes};
use vstd::prelude::*;

verus! {

/// An instruction of the immediate format, before it is packed.
#[derive(Debug)]
pub struct ImmediateInstruction {
    pub opcode: u32,
    pub rd: Reg,
    pub rs1: Reg,
    pub imm: i64,
}

/// Base opcode of the add-immediate instruction.
pub const OPCODE_ADDI: u32 = 0x13;

/// Base opcode of the environment call.
pub const OPCODE_SYSTEM: u32 = 0x73;

/// The word of an immediate-format instruction: the constant from bit 20 up,
/// the source register from bit 15, the function field (always zero in this
/// family) from bit 12, the destination register from bit 7, and the opcode.
/// Each field is cut to 32 bits before it is shifted into place.
pub open spec fn immediate_word(opcode: u32, rd: u64, rs1: u64, imm: i64) -> u32 {
    (imm as u32) << 20 | (rs1 as u32) << 15 | 0u32 << 12 | (rd as u32) << 7 | opcode
}

impl ImmediateInstruction {
    /// The word that the instruction packs into.
    pub open spec fn word(self) -> u32 {
        immediate_word(self.opcode, self.rd.encoding(), self.rs1.encoding(), self.imm)
    }
}

/// Unpacking an immediate-format word gives back each field, as long as the
/// fields fit their places: a 7-bit opcode, 5-bit registers and a signed
/// 12-bit constant.
pub proof fn lemma_immediate_fields(opcode: u32, rd: u64, rs1: u64, imm: i64)
    requires
        opcode < 128,
        rd < 32,
        rs1 < 32,
        -2048 <= imm < 2048,
    ensures
        immediate_word(opcode, rd, rs1, imm) & 0x7f == opcode,
        (immediate_word(opcode, rd, rs1, imm) >> 7) & 0x1f == rd,
        (immediate_word(opcode, rd, rs1, imm) >> 12) & 0x7 == 0,
        (immediate_word(opcode, rd, rs1, imm) >> 15) & 0x1f == rs1,
        ((immediate_word(opcode, rd, rs1, imm) as i32) >> 20) == imm,
{
    let w = immediate_word(opcode, rd, rs1, imm);
    assert(w & 0x7f == opcode && (w >> 7) & 0x1f == rd && (w >> 12) & 0x7 == 0 && (w >> 15) & 0x1f
        == rs1 && ((w as i32) >> 20) == imm) by (bit_vector)
        requires
            w == (imm as u32) << 20 | (rs1 as u32) << 15 | 0u32 << 12 | (rd as u32) << 7 | opcode,
            opcode < 128,
            rd < 32,
            rs1 < 32,
            -2048 <= imm < 2048,
    ;
}

/// Packs an immediate-format instruction into its four bytes.
pub fn immediate_to_endian(ins: ImmediateInstruction) -> (bytes: Vec<u8>)
    ensures
        bytes@ == le_bytes(ins.word()),
        bytes@.len() == 4,
{
    let rd: u64 = ins.rd.number();
    let rs1: u64 = ins.rs1.number();
    let instruction: u32 = (#[verifier::truncate] (ins.imm as u32)) << 20
        | (#[verifier::truncate] (rs1 as u32)) << 15
        | 0u32 << 12
        | (#[verifier::truncate] (rd as u32)) << 7
        | ins.opcode;
    to_le_bytes(instruction)
}

/// The environment call: every field but the opcode is zero.
pub fn ecall() -> (bytes: Vec<u8>)
    ensures
        bytes@ == le_bytes(immediate_word(OPCODE_SYSTEM, 0, 0, 0)),
        bytes@.len() == 4,
{
    immediate_to_endian(
        ImmediateInstruction { opcode: OPCODE_SYSTEM, rd: Reg::Zero, rs1: Reg::Zero, imm: 0 },
    )
}

/// Add-immediate: `dist = rs1 + val`.
pub fn addi(dist: Reg, rs1: Reg, val: i64) -> (bytes: Vec<u8>)
    ensures
        bytes@ == le_bytes(immediate_word(OPCODE_ADDI, dist.encoding(), rs1.encoding(), val)),
        bytes@.len() == 4,
{
    immediate_to_endian(ImmediateInstruction { opcode: OPCODE_ADDI, rs1, rd: dist, imm: val })
}

} // verus!
