use tirc::riscv::immediate::{addi, ecall, immediate_to_endian, ImmediateInstruction};
use tirc::riscv::jmp::{in_reach, jal, jalr, JmpError};
use tirc::riscv::register::{add, register_to_endian, sub, RegisterInstruction};
use tirc::riscv::regs::Reg;
use tirc::riscv::word::to_le_bytes;

fn word(bytes: &[u8]) -> u32 {
    assert_eq!(bytes.len(), 4);
    u32::from_le_bytes([bytes[0], bytes[1], bytes[2], bytes[3]])
}

#[test]
fn words_are_stored_least_significant_byte_first() {
    assert_eq!(to_le_bytes(0x01E00513), vec![0x13, 0x05, 0xE0, 0x01]);
    assert_eq!(to_le_bytes(0), vec![0, 0, 0, 0]);
    assert_eq!(to_le_bytes(0xFFFF_FFFF), vec![0xFF, 0xFF, 0xFF, 0xFF]);
    assert_eq!(to_le_bytes(0x1234_5678), 0x1234_5678u32.to_le_bytes().to_vec());
}

#[test]
fn immediate_round_trip() {
    let bytes = immediate_to_endian(ImmediateInstruction {
        opcode: 0x13,
        rd: Reg::A0,
        rs1: Reg::Zero,
        imm: 30,
    });
    let w = word(&bytes);
    assert_eq!(w, (30 << 20) | (0 << 15) | (0 << 12) | (10 << 7) | 0x13);
    assert_eq!(w, 0x01E00513);
    assert_eq!(w & 0x7f, 0x13);
    assert_eq!((w >> 7) & 0x1f, 10);
    assert_eq!((w >> 12) & 0x7, 0);
    assert_eq!((w >> 15) & 0x1f, 0);
    assert_eq!((w as i32) >> 20, 30);
}

#[test]
fn addi_encodes_negative_constants() {
    let w = word(&addi(Reg::Sp, Reg::Sp, -16));
    assert_eq!(w, 0xFF010113);
    assert_eq!((w as i32) >> 20, -16);
}

#[test]
fn addi_keeps_the_low_bits_of_a_wide_constant() {
    let w = word(&addi(Reg::A0, Reg::Zero, 0x1000 + 5));
    assert_eq!(w, (5 << 20) | (10 << 7) | 0x13);
}

#[test]
fn ecall_word() {
    assert_eq!(word(&ecall()), 0x0000_0073);
}

#[test]
fn jalr_return_word() {
    assert_eq!(word(&jalr(Reg::Zero, Reg::Ra, 0)), 0x0000_8067);
}

#[test]
fn register_add_and_sub_words() {
    assert_eq!(word(&add(&Reg::A0, &Reg::A0, &Reg::T0)), 0x0055_0533);
    assert_eq!(word(&sub(&Reg::A0, &Reg::A0, &Reg::T0)), 0x4055_0533);
    assert_eq!(word(&add(&Reg::T6, &Reg::S11, &Reg::A7)), 0x011D_8FB3);
}

#[test]
fn register_instruction_packs_every_field() {
    let w = word(&register_to_endian(RegisterInstruction {
        funct3: 0b101,
        funct7: 0b0100000,
        rs2: 3,
        rs1: 2,
        rd: 1,
        opcode: 0b0110011,
    }));
    assert_eq!(w, (0b0100000 << 25) | (3 << 20) | (2 << 15) | (0b101 << 12) | (1 << 7) | 0b0110011);
}

#[test]
fn jump_forward_by_eight() {
    assert!(in_reach(8, 0));
    let bytes = jal(8, 0, Reg::Ra).unwrap();
    let units: u32 = 8 >> 1;
    let scattered = ((units & 0x80000) << 12)
        | ((units & 0x3FF) << 21)
        | ((units & 0x400) << 10)
        | ((units & 0x7F800) << 1);
    assert_eq!(word(&bytes), scattered | (1 << 7) | 0x6F);
    assert_eq!(word(&bytes), 0x0080_00EF);
}

fn decode_jump(w: u32) -> i64 {
    let sign = ((w as i32) >> 31) as i64;
    (sign << 20)
        | ((((w >> 21) & 0x3ff) << 1) as i64)
        | ((((w >> 20) & 1) << 11) as i64)
        | ((((w >> 12) & 0xff) << 12) as i64)
}

#[test]
fn jump_words_decode_to_their_distance() {
    let cases: [(u64, u64); 8] = [
        (0, 8),
        (8, 0),
        (4096, 0),
        (0, 4096),
        (1048574, 0),
        (0, 1048576),
        (5000, 2952),
        (1000000, 1999998),
    ];
    for (target, origin) in cases {
        assert!(in_reach(target, origin));
        let w = word(&jal(target, origin, Reg::Ra).unwrap());
        assert_eq!(w & 0x7f, 0x6f);
        assert_eq!((w >> 7) & 0x1f, 1);
        assert_eq!(decode_jump(w), target as i64 - origin as i64);
    }
}

#[test]
fn jump_backward_word() {
    assert_eq!(word(&jal(0, 8, Reg::Zero).unwrap()), 0xFF9F_F06F);
}

#[test]
fn odd_distance_is_refused() {
    assert_eq!(jal(7, 0, Reg::Ra), Err(JmpError::NonAlignedAddress));
    assert_eq!(jal(0, 1, Reg::Ra), Err(JmpError::NonAlignedAddress));
    assert_eq!(jal(5, 0, Reg::Ra), Err(JmpError::NonAlignedAddress));
}

#[test]
fn reach_of_a_jump() {
    assert!(in_reach(1048574, 0));
    assert!(!in_reach(1048575, 0));
    assert!(!in_reach(1048576, 0));
    assert!(in_reach(0, 1048576));
    assert!(!in_reach(0, 1048577));
    assert!(in_reach(u64::MAX, u64::MAX - 10));
    assert!(!in_reach(u64::MAX, 0));
    assert!(!in_reach(0, u64::MAX));
    assert!(!in_reach(0x1_0000_0008, 0));
}
