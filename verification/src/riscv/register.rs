//! The register-register instruction format: a destination and two source
//! registers, with two function fields that pick the operation.

use super::regs::Reg;
use super::word::{le_bytes, to_le_bytes};
use vstd::prelude::*;

verus! {

/// An instruction of the register-register format, before it is packed.
#[derive(Debug)]
pub struct RegisterInstruction {
    pub funct3: u64,
    pub funct7: u64,
    pub rs2: u64,
    pub rs1: u64,
    pub rd: u64,
    pub opcode: u64,
}

/// Base opcode shared by the register-register arithmetic instructions.
pub const OPCODE_OP: u64 = 0b0110011;

/// Upper function field of an addition.
pub const FUNCT7_ADD: u64 = 0x00;

/// Upper function field of a subtraction.
pub const FUNCT7_SUB: u64 = 0x20;

/// The word of a register-register instruction: the upper function field from
/// bit 25 up, the second source from bit 20, the first source from bit 15,
/// the lower function field from bit 12, the destination from bit 7, and the
/// opcode. Each field is cut to 32 bits before it is shifted into place.
pub open spec fn register_word(
    opcode: u64,
    funct3: u64,
    funct7: u64,
    rd: u64,
    rs1: u64,
    rs2: u64,
) -> u32 {
    (funct7 as u32) << 25 | (rs2 as u32) << 20 | (rs1 as u32) << 15 | (funct3 as u32) << 12 | (
    rd as u32) << 7 | (opcode as u32)
}

impl RegisterInstruction {
    /// The word that the instruction packs into.
    pub open spec fn word(self) -> u32 {
        register_word(self.opcode, self.funct3, self.funct7, self.rd, self.rs1, self.rs2)
    }
}

/// Unpacking a register-register word gives back each field, as long as the
/// fields fit their places: a 7-bit opcode, 5-bit registers, a 3-bit and a
/// 7-bit function field.
pub proof fn lemma_register_fields(
    opcode: u64,
    funct3: u64,
    funct7: u64,
    rd: u64,
    rs1: u64,
    rs2: u64,
)
    requires
        opcode < 128,
        funct3 < 8,
        funct7 < 128,
        rd < 32,
        rs1 < 32,
        rs2 < 32,
    ensures
        register_word(opcode, funct3, funct7, rd, rs1, rs2) & 0x7f == opcode,
        (register_word(opcode, funct3, funct7, rd, rs1, rs2) >> 7) & 0x1f == rd,
        (register_word(opcode, funct3, funct7, rd, rs1, rs2) >> 12) & 0x7 == funct3,
        (register_word(opcode, funct3, funct7, rd, rs1, rs2) >> 15) & 0x1f == rs1,
        (register_word(opcode, funct3, funct7, rd, rs1, rs2) >> 20) & 0x1f == rs2,
        (register_word(opcode, funct3, funct7, rd, rs1, rs2) >> 25) == funct7,
{
    let w = register_word(opcode, funct3, funct7, rd, rs1, rs2);
    assert(w & 0x7f == opcode && (w >> 7) & 0x1f == rd && (w >> 12) & 0x7 == funct3 && (w >> 15)
        & 0x1f == rs1 && (w >> 20) & 0x1f == rs2 && (w >> 25) == funct7) by (bit_vector)
        requires
            w == (funct7 as u32) << 25 | (rs2 as u32) << 20 | (rs1 as u32) << 15 | (funct3 as u32)
                << 12 | (rd as u32) << 7 | (opcode as u32),
            opcode < 128,
            funct3 < 8,
            funct7 < 128,
            rd < 32,
            rs1 < 32,
            rs2 < 32,
    ;
}

/// An addition and a subtraction of the same registers differ in one bit of
/// the word and share their base opcode.
pub proof fn lemma_sub_differs_from_add(rd: u64, rs1: u64, rs2: u64)
    requires
        rd < 32,
        rs1 < 32,
        rs2 < 32,
    ensures
        register_word(OPCODE_OP, 0, FUNCT7_SUB, rd, rs1, rs2) == register_word(
            OPCODE_OP,
            0,
            FUNCT7_ADD,
            rd,
            rs1,
            rs2,
        ) | 0x4000_0000,
        register_word(OPCODE_OP, 0, FUNCT7_SUB, rd, rs1, rs2) & 0x7f == register_word(
            OPCODE_OP,
            0,
            FUNCT7_ADD,
            rd,
            rs1,
            rs2,
        ) & 0x7f,
{
    let a = register_word(OPCODE_OP, 0, FUNCT7_ADD, rd, rs1, rs2);
    let s = register_word(OPCODE_OP, 0, FUNCT7_SUB, rd, rs1, rs2);
    assert(s == a | 0x4000_0000 && s & 0x7f == a & 0x7f) by (bit_vector)
        requires
            a == (0u64 as u32) << 25 | (rs2 as u32) << 20 | (rs1 as u32) << 15 | (0u64 as u32)
                << 12 | (rd as u32) << 7 | (0b0110011u64 as u32),
            s == (0x20u64 as u32) << 25 | (rs2 as u32) << 20 | (rs1 as u32) << 15 | (0u64 as u32)
                << 12 | (rd as u32) << 7 | (0b0110011u64 as u32),
            rd < 32,
            rs1 < 32,
            rs2 < 32,
    ;
}

/// Packs a register-register instruction into its four bytes.
pub fn register_to_endian(ins: RegisterInstruction) -> (bytes: Vec<u8>)
    ensures
        bytes@ == le_bytes(ins.word()),
        bytes@.len() == 4,
{
    let instruction: u32 = (#[verifier::truncate] (ins.funct7 as u32)) << 25
        | (#[verifier::truncate] (ins.rs2 as u32)) << 20
        | (#[verifier::truncate] (ins.rs1 as u32)) << 15
        | (#[verifier::truncate] (ins.funct3 as u32)) << 12
        | (#[verifier::truncate] (ins.rd as u32)) << 7
        | (#[verifier::truncate] (ins.opcode as u32));
    to_le_bytes(instruction)
}

/// Register addition: `rd = rs1 + rs2`.
pub fn add(rd: &Reg, rs1: &Reg, rs2: &Reg) -> (bytes: Vec<u8>)
    ensures
        bytes@ == le_bytes(
            register_word(OPCODE_OP, 0, FUNCT7_ADD, rd.encoding(), rs1.encoding(), rs2.encoding()),
        ),
        bytes@.len() == 4,
{
    register_to_endian(
        RegisterInstruction {
            funct3: 0x0,
            funct7: FUNCT7_ADD,
            rs1: rs1.number(),
            rs2: rs2.number(),
            rd: rd.number(),
            opcode: OPCODE_OP,
        },
    )
}

/// Register subtraction: `rd = rs1 - rs2`.
pub fn sub(rd: &Reg, rs1: &Reg, rs2: &Reg) -> (bytes: Vec<u8>)
    ensures
        bytes@ == le_bytes(
            register_word(OPCODE_OP, 0, FUNCT7_SUB, rd.encoding(), rs1.encoding(), rs2.encoding()),
        ),
        bytes@.len() == 4,
{
    register_to_endian(
        RegisterInstruction {
            funct3: 0x0,
            funct7: FUNCT7_SUB,
            rs1: rs1.number(),
            rs2: rs2.number(),
            rd: rd.number(),
            opcode: OPCODE_OP,
        },
    )
}

} // verus!
