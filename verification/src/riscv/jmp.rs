//! Jumps: the jump-and-link instruction with its scattered displacement, and
//! the register-indirect jump that serves as a return.

use super::immediate::{immediate_to_endian, immediate_word, ImmediateInstruction};
use super::regs::Reg;
use super::word::{le_bytes, to_le_bytes};
use vstd::prelude::*;

verus! {

/// Why a jump cannot be encoded.
#[derive(Debug, PartialEq, Eq, Clone, Copy, Structural)]
pub enum JmpError {
    /// The distance between origin and target is odd.
    NonAlignedAddress,
}

/// Base opcode of the register-indirect jump.
pub const OPCODE_JALR: u32 = 0x67;

/// Base opcode of the jump-and-link instruction.
pub const OPCODE_JAL: u32 = 0x6F;

/// The nearest backward distance a jump can cover, in bytes.
pub const MIN_DISPLACEMENT: i64 = -1048576;

/// The farthest forward distance a jump can cover, in bytes.
pub const MAX_DISPLACEMENT: i64 = 1048574;

/// The signed distance in bytes from the jump to its target.
pub open spec fn displacement(target: u64, origin: u64) -> int {
    target - origin
}

/// Whether a jump from `origin` reaches `target`.
pub open spec fn reachable(target: u64, origin: u64) -> bool {
    MIN_DISPLACEMENT <= displacement(target, origin) <= MAX_DISPLACEMENT
}

/// The 20 bits of a halved displacement, moved to where the jump format
/// keeps them: bit 19 goes to bit 31, bits 0 to 9 to bits 21 to 30, bit 10 to
/// bit 20, and bits 11 to 18 to bits 12 to 19.
pub open spec fn scatter(units: u32) -> u32 {
    (units & 0x80000) << 12 | (units & 0x3ff) << 21 | (units & 0x400) << 10 | (units & 0x7f800)
        << 1
}

/// The word of a jump over `distance` bytes that leaves the return address
/// in register number `rd`.
pub open spec fn jump_word(distance: i64, rd: u64) -> u32 {
    scatter((distance >> 1) as u32) | (rd as u32) << 7 | OPCODE_JAL
}

/// Reading the scattered bits of a jump word back, in the order the machine
/// does, gives the distance again, and the other fields are in their places.
pub proof fn lemma_jump_fields(distance: i64, rd: u64)
    requires
        MIN_DISPLACEMENT <= distance <= MAX_DISPLACEMENT,
        distance % 2 == 0,
        rd < 32,
    ensures
        jump_word(distance, rd) & 0x7f == OPCODE_JAL,
        (jump_word(distance, rd) >> 7) & 0x1f == rd,
        gather(jump_word(distance, rd)) == distance,
{
    let w = jump_word(distance, rd);
    let u = #[verifier::truncate] ((distance >> 1) as u32);
    assert(distance & 1 == 0) by (bit_vector)
        requires
            distance % 2 == 0,
    ;
    assert(w & 0x7f == 0x6f && (w >> 7) & 0x1f == rd && ((((w as i32) >> 31) << 20) as i64 | (((w
        >> 21) & 0x3ff) << 1) as i64 | (((w >> 20) & 1) << 11) as i64 | (((w >> 12) & 0xff)
        << 12) as i64) == distance) by (bit_vector)
        requires
            u == (distance >> 1) as u32,
            w == ((u & 0x80000) << 12 | (u & 0x3ff) << 21 | (u & 0x400) << 10 | (u & 0x7f800) << 1)
                | (rd as u32) << 7 | 0x6fu32,
            -1048576 <= distance <= 1048574,
            distance & 1 == 0,
            rd < 32,
    ;
}

/// The distance that a jump word holds: its sign from bit 31, then bits 12
/// to 19, bit 20 and bits 21 to 30 of the word as bits 12 to 19, 11 and 1 to
/// 10 of the distance.
pub open spec fn gather(word: u32) -> i64 {
    (((word as i32) >> 31) << 20) as i64 | (((word >> 21) & 0x3ff) << 1) as i64 | (((word >> 20)
        & 1) << 11) as i64 | (((word >> 12) & 0xff) << 12) as i64
}

/// Whether a jump from `current_pc` reaches `target_pc`.
pub fn in_reach(target_pc: u64, current_pc: u64) -> (ok: bool)
    ensures
        ok == reachable(target_pc, current_pc),
{
    if target_pc >= current_pc {
        target_pc - current_pc <= 1048574
    } else {
        current_pc - target_pc <= 1048576
    }
}

/// Register-indirect jump to `rs1 + offset`, leaving the return address in
/// `dist`.
pub fn jalr(dist: Reg, rs1: Reg, offset: i64) -> (bytes: Vec<u8>)
    ensures
        bytes@ == le_bytes(immediate_word(OPCODE_JALR, dist.encoding(), rs1.encoding(), offset)),
        bytes@.len() == 4,
{
    immediate_to_endian(ImmediateInstruction { rs1, rd: dist, imm: offset, opcode: OPCODE_JALR })
}

/// Jump from `current_pc` to `target_pc`, leaving the return address in `rd`.
///
/// The target has to be within reach; [`in_reach`] tells. An odd distance is
/// refused, an even one is encoded.
pub fn jal(target_pc: u64, current_pc: u64, rd: Reg) -> (r: Result<Vec<u8>, JmpError>)
    requires
        reachable(target_pc, current_pc),
    ensures
        displacement(target_pc, current_pc) % 2 != 0 ==> r == Err::<Vec<u8>, JmpError>(
            JmpError::NonAlignedAddress,
        ),
        displacement(target_pc, current_pc) % 2 == 0 ==> r is Ok && r->Ok_0@ == le_bytes(
            jump_word(displacement(target_pc, current_pc) as i64, rd.encoding()),
        ),
{
    let offset: i64 = if target_pc >= current_pc {
        (target_pc - current_pc) as i64
    } else {
        -((current_pc - target_pc) as i64)
    };
    let rd: u64 = rd.number();
    if target_pc % 2 != current_pc % 2 {
        return Err(JmpError::NonAlignedAddress);
    }
    let offset_in_units: u32 = #[verifier::truncate] ((offset >> 1) as u32);
    let imm: u32 = ((offset_in_units & 0x80000) << 12) | ((offset_in_units & 0x3FF) << 21) | ((
    offset_in_units & 0x400) << 10) | ((offset_in_units & 0x7F800) << 1);
    let instruction: u32 = imm | (#[verifier::truncate] (rd as u32)) << 7 | OPCODE_JAL;
    Ok(to_le_bytes(instruction))
}

} // verus!
