use std::str::FromStr;
use tirc::riscv::regs::Reg;

#[test]
fn every_name_is_found() {
    let table = [
        ("zero", Reg::Zero, 0u64),
        ("ra", Reg::Ra, 1),
        ("sp", Reg::Sp, 2),
        ("gp", Reg::Gp, 3),
        ("tp", Reg::Tp, 4),
        ("t0", Reg::T0, 5),
        ("t1", Reg::T1, 6),
        ("t2", Reg::T2, 7),
        ("s0", Reg::S0, 8),
        ("s1", Reg::S1, 9),
        ("a0", Reg::A0, 10),
        ("a1", Reg::A1, 11),
        ("a2", Reg::A2, 12),
        ("a3", Reg::A3, 13),
        ("a4", Reg::A4, 14),
        ("a5", Reg::A5, 15),
        ("a6", Reg::A6, 16),
        ("a7", Reg::A7, 17),
        ("s2", Reg::S2, 18),
        ("s3", Reg::S3, 19),
        ("s4", Reg::S4, 20),
        ("s5", Reg::S5, 21),
        ("s6", Reg::S6, 22),
        ("s7", Reg::S7, 23),
        ("s8", Reg::S8, 24),
        ("s9", Reg::S9, 25),
        ("s10", Reg::S10, 26),
        ("s11", Reg::S11, 27),
        ("t3", Reg::T3, 28),
        ("t4", Reg::T4, 29),
        ("t5", Reg::T5, 30),
        ("t6", Reg::T6, 31),
        ("mstatus", Reg::Mstatus, 0x300),
        ("mepc", Reg::Mepc, 0x341),
        ("mtvec", Reg::Mtvec, 0x305),
        ("mcause", Reg::Mcause, 0x342),
    ];
    for (name, reg, number) in table {
        assert_eq!(Reg::lookup(name), Some(reg));
        assert_eq!(Reg::from_str(name), Ok(reg));
        assert_eq!(reg.number(), number);
        assert_eq!(u64::from(&reg), number);
        let n: u64 = reg.into();
        assert_eq!(n, number);
        assert_eq!(Reg::from_number(number), Some(reg));
        assert_eq!(reg.to_name(), name);
    }
}

#[test]
fn lookup_ignores_case() {
    assert_eq!(Reg::lookup("A0"), Some(Reg::A0));
    assert_eq!(Reg::lookup("Zero"), Some(Reg::Zero));
    assert_eq!(Reg::lookup("MSTATUS"), Some(Reg::Mstatus));
    assert_eq!(Reg::try_from(&"mCaUsE".to_string()), Ok(Reg::Mcause));
}

#[test]
fn unknown_names_are_refused() {
    assert_eq!(Reg::lookup(""), None);
    assert_eq!(Reg::lookup("x0"), None);
    assert_eq!(Reg::lookup("a8"), None);
    assert_eq!(Reg::lookup("%a0"), None);
    assert_eq!(Reg::lookup("a0 "), None);
    assert_eq!(Reg::parse("s12"), Err("Unknown register: s12".to_string()));
    assert_eq!(Reg::from_str("pc"), Err("Unknown register: pc".to_string()));
}

#[test]
fn unknown_numbers_are_no_register() {
    assert_eq!(Reg::from_number(32), None);
    assert_eq!(Reg::from_number(0x301), None);
    assert_eq!(Reg::from_number(u64::MAX), None);
}
