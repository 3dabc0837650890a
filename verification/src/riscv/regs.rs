//! The register file: thirty-two general-purpose registers under their ABI
//! names and four machine-mode control and status registers.
//!
//! Every register has exactly one name and one numeric encoding. Names are
//! looked up without regard to ASCII case.

use std::str::FromStr;
use vstd::prelude::*;
use vstd::std_specs::convert::{FromSpecImpl, TryFromSpecImpl};
use crate::text::spells;
use vstd::string::StringExecFns;

verus! {

/// A register of the target machine.
#[derive(Debug, PartialEq, Eq, Clone, Copy, Structural)]
pub enum Reg {
    Zero,
    Ra,
    Sp,
    Gp,
    Tp,
    T0,
    T1,
    T2,
    S0,
    S1,
    A0,
    A1,
    A2,
    A3,
    A4,
    A5,
    A6,
    A7,
    S2,
    S3,
    S4,
    S5,
    S6,
    S7,
    S8,
    S9,
    S10,
    S11,
    T3,
    T4,
    T5,
    T6,
    Mstatus,
    Mepc,
    Mtvec,
    Mcause,
}

/// The lower-case form of an ASCII letter; any other character is unchanged.
pub open spec fn ascii_lower_char(c: char) -> char {
    if 'A' <= c && c <= 'Z' {
        ((c as u8) + 32) as char
    } else {
        c
    }
}

/// A sequence of characters with every ASCII letter in lower case.
pub open spec fn ascii_lower(s: Seq<char>) -> Seq<char> {
    Seq::new(s.len(), |i: int| ascii_lower_char(s[i]))
}

/// Length, first, second and last character of a name: together they tell
/// any two canonical register names apart.
spec fn name_key(s: Seq<char>) -> (nat, char, char, char) {
    (s.len(), s[0], s[1], s[s.len() - 1])
}

impl Reg {
    /// The canonical, lower-case name of the register.
    pub open spec fn name(self) -> Seq<char> {
        match self {
            Reg::Zero => "zero"@,
            Reg::Ra => "ra"@,
            Reg::Sp => "sp"@,
            Reg::Gp => "gp"@,
            Reg::Tp => "tp"@,
            Reg::T0 => "t0"@,
            Reg::T1 => "t1"@,
            Reg::T2 => "t2"@,
            Reg::S0 => "s0"@,
            Reg::S1 => "s1"@,
            Reg::A0 => "a0"@,
            Reg::A1 => "a1"@,
            Reg::A2 => "a2"@,
            Reg::A3 => "a3"@,
            Reg::A4 => "a4"@,
            Reg::A5 => "a5"@,
            Reg::A6 => "a6"@,
            Reg::A7 => "a7"@,
            Reg::S2 => "s2"@,
            Reg::S3 => "s3"@,
            Reg::S4 => "s4"@,
            Reg::S5 => "s5"@,
            Reg::S6 => "s6"@,
            Reg::S7 => "s7"@,
            Reg::S8 => "s8"@,
            Reg::S9 => "s9"@,
            Reg::S10 => "s10"@,
            Reg::S11 => "s11"@,
            Reg::T3 => "t3"@,
            Reg::T4 => "t4"@,
            Reg::T5 => "t5"@,
            Reg::T6 => "t6"@,
            Reg::Mstatus => "mstatus"@,
            Reg::Mepc => "mepc"@,
            Reg::Mtvec => "mtvec"@,
            Reg::Mcause => "mcause"@,
        }
    }

    /// The number that stands for the register in an instruction word.
    pub open spec fn encoding(self) -> u64 {
        match self {
            Reg::Zero => 0x00,
            Reg::Ra => 0x01,
            Reg::Sp => 0x02,
            Reg::Gp => 0x03,
            Reg::Tp => 0x04,
            Reg::T0 => 0x05,
            Reg::T1 => 0x06,
            Reg::T2 => 0x07,
            Reg::S0 => 0x08,
            Reg::S1 => 0x09,
            Reg::A0 => 0x0a,
            Reg::A1 => 0x0b,
            Reg::A2 => 0x0c,
            Reg::A3 => 0x0d,
            Reg::A4 => 0x0e,
            Reg::A5 => 0x0f,
            Reg::A6 => 0x10,
            Reg::A7 => 0x11,
            Reg::S2 => 0x12,
            Reg::S3 => 0x13,
            Reg::S4 => 0x14,
            Reg::S5 => 0x15,
            Reg::S6 => 0x16,
            Reg::S7 => 0x17,
            Reg::S8 => 0x18,
            Reg::S9 => 0x19,
            Reg::S10 => 0x1a,
            Reg::S11 => 0x1b,
            Reg::T3 => 0x1c,
            Reg::T4 => 0x1d,
            Reg::T5 => 0x1e,
            Reg::T6 => 0x1f,
            Reg::Mstatus => 0x300,
            Reg::Mepc => 0x341,
            Reg::Mtvec => 0x305,
            Reg::Mcause => 0x342,
        }
    }

    /// Whether the register is one of the thirty-two general-purpose ones.
    pub open spec fn is_general_purpose(self) -> bool {
        !(self == Reg::Mstatus || self == Reg::Mepc || self == Reg::Mtvec || self == Reg::Mcause)
    }

    /// The register that a name denotes: the one whose canonical name equals
    /// the given name once its ASCII letters are in lower case.
    pub open spec fn named(name: Seq<char>) -> Option<Reg> {
        if exists|r: Reg| r.name() == ascii_lower(name) {
            Some(choose|r: Reg| r.name() == ascii_lower(name))
        } else {
            None
        }
    }

    /// The register that a number stands for, if it stands for one.
    pub open spec fn numbered(number: u64) -> Option<Reg> {
        if exists|r: Reg| r.encoding() == number {
            Some(choose|r: Reg| r.encoding() == number)
        } else {
            None
        }
    }

    /// The text of the error that an unknown register name yields.
    pub open spec fn unknown_message(name: Seq<char>) -> Seq<char> {
        "Unknown register: "@ + name
    }

    /// Spells out every canonical name character by character.
    pub proof fn lemma_names_revealed()
        ensures
            Reg::Zero.name() == seq!['z', 'e', 'r', 'o'],
            Reg::Ra.name() == seq!['r', 'a'],
            Reg::Sp.name() == seq!['s', 'p'],
            Reg::Gp.name() == seq!['g', 'p'],
            Reg::Tp.name() == seq!['t', 'p'],
            Reg::T0.name() == seq!['t', '0'],
            Reg::T1.name() == seq!['t', '1'],
            Reg::T2.name() == seq!['t', '2'],
            Reg::S0.name() == seq!['s', '0'],
            Reg::S1.name() == seq!['s', '1'],
            Reg::A0.name() == seq!['a', '0'],
            Reg::A1.name() == seq!['a', '1'],
            Reg::A2.name() == seq!['a', '2'],
            Reg::A3.name() == seq!['a', '3'],
            Reg::A4.name() == seq!['a', '4'],
            Reg::A5.name() == seq!['a', '5'],
            Reg::A6.name() == seq!['a', '6'],
            Reg::A7.name() == seq!['a', '7'],
            Reg::S2.name() == seq!['s', '2'],
            Reg::S3.name() == seq!['s', '3'],
            Reg::S4.name() == seq!['s', '4'],
            Reg::S5.name() == seq!['s', '5'],
            Reg::S6.name() == seq!['s', '6'],
            Reg::S7.name() == seq!['s', '7'],
            Reg::S8.name() == seq!['s', '8'],
            Reg::S9.name() == seq!['s', '9'],
            Reg::S10.name() == seq!['s', '1', '0'],
            Reg::S11.name() == seq!['s', '1', '1'],
            Reg::T3.name() == seq!['t', '3'],
            Reg::T4.name() == seq!['t', '4'],
            Reg::T5.name() == seq!['t', '5'],
            Reg::T6.name() == seq!['t', '6'],
            Reg::Mstatus.name() == seq!['m', 's', 't', 'a', 't', 'u', 's'],
            Reg::Mepc.name() == seq!['m', 'e', 'p', 'c'],
            Reg::Mtvec.name() == seq!['m', 't', 'v', 'e', 'c'],
            Reg::Mcause.name() == seq!['m', 'c', 'a', 'u', 's', 'e'],
    {
        reveal_strlit("zero");
        reveal_strlit("ra");
        reveal_strlit("sp");
        reveal_strlit("gp");
        reveal_strlit("tp");
        reveal_strlit("t0");
        reveal_strlit("t1");
        reveal_strlit("t2");
        reveal_strlit("s0");
        reveal_strlit("s1");
        reveal_strlit("a0");
        reveal_strlit("a1");
        reveal_strlit("a2");
        reveal_strlit("a3");
        reveal_strlit("a4");
        reveal_strlit("a5");
        reveal_strlit("a6");
        reveal_strlit("a7");
        reveal_strlit("s2");
        reveal_strlit("s3");
        reveal_strlit("s4");
        reveal_strlit("s5");
        reveal_strlit("s6");
        reveal_strlit("s7");
        reveal_strlit("s8");
        reveal_strlit("s9");
        reveal_strlit("s10");
        reveal_strlit("s11");
        reveal_strlit("t3");
        reveal_strlit("t4");
        reveal_strlit("t5");
        reveal_strlit("t6");
        reveal_strlit("mstatus");
        reveal_strlit("mepc");
        reveal_strlit("mtvec");
        reveal_strlit("mcause");
        assert(Reg::Zero.name() =~= seq!['z', 'e', 'r', 'o']);
        assert(Reg::Ra.name() =~= seq!['r', 'a']);
        assert(Reg::Sp.name() =~= seq!['s', 'p']);
        assert(Reg::Gp.name() =~= seq!['g', 'p']);
        assert(Reg::Tp.name() =~= seq!['t', 'p']);
        assert(Reg::T0.name() =~= seq!['t', '0']);
        assert(Reg::T1.name() =~= seq!['t', '1']);
        assert(Reg::T2.name() =~= seq!['t', '2']);
        assert(Reg::S0.name() =~= seq!['s', '0']);
        assert(Reg::S1.name() =~= seq!['s', '1']);
        assert(Reg::A0.name() =~= seq!['a', '0']);
        assert(Reg::A1.name() =~= seq!['a', '1']);
        assert(Reg::A2.name() =~= seq!['a', '2']);
        assert(Reg::A3.name() =~= seq!['a', '3']);
        assert(Reg::A4.name() =~= seq!['a', '4']);
        assert(Reg::A5.name() =~= seq!['a', '5']);
        assert(Reg::A6.name() =~= seq!['a', '6']);
        assert(Reg::A7.name() =~= seq!['a', '7']);
        assert(Reg::S2.name() =~= seq!['s', '2']);
        assert(Reg::S3.name() =~= seq!['s', '3']);
        assert(Reg::S4.name() =~= seq!['s', '4']);
        assert(Reg::S5.name() =~= seq!['s', '5']);
        assert(Reg::S6.name() =~= seq!['s', '6']);
        assert(Reg::S7.name() =~= seq!['s', '7']);
        assert(Reg::S8.name() =~= seq!['s', '8']);
        assert(Reg::S9.name() =~= seq!['s', '9']);
        assert(Reg::S10.name() =~= seq!['s', '1', '0']);
        assert(Reg::S11.name() =~= seq!['s', '1', '1']);
        assert(Reg::T3.name() =~= seq!['t', '3']);
        assert(Reg::T4.name() =~= seq!['t', '4']);
        assert(Reg::T5.name() =~= seq!['t', '5']);
        assert(Reg::T6.name() =~= seq!['t', '6']);
        assert(Reg::Mstatus.name() =~= seq!['m', 's', 't', 'a', 't', 'u', 's']);
        assert(Reg::Mepc.name() =~= seq!['m', 'e', 'p', 'c']);
        assert(Reg::Mtvec.name() =~= seq!['m', 't', 'v', 'e', 'c']);
        assert(Reg::Mcause.name() =~= seq!['m', 'c', 'a', 'u', 's', 'e']);
    }

    proof fn lemma_name_key(r: Reg)
        ensures
            name_key(r.name()) == match r {
                Reg::Zero => (4nat, 'z', 'e', 'o'),
                Reg::Ra => (2nat, 'r', 'a', 'a'),
                Reg::Sp => (2nat, 's', 'p', 'p'),
                Reg::Gp => (2nat, 'g', 'p', 'p'),
                Reg::Tp => (2nat, 't', 'p', 'p'),
                Reg::T0 => (2nat, 't', '0', '0'),
                Reg::T1 => (2nat, 't', '1', '1'),
                Reg::T2 => (2nat, 't', '2', '2'),
                Reg::S0 => (2nat, 's', '0', '0'),
                Reg::S1 => (2nat, 's', '1', '1'),
                Reg::A0 => (2nat, 'a', '0', '0'),
                Reg::A1 => (2nat, 'a', '1', '1'),
                Reg::A2 => (2nat, 'a', '2', '2'),
                Reg::A3 => (2nat, 'a', '3', '3'),
                Reg::A4 => (2nat, 'a', '4', '4'),
                Reg::A5 => (2nat, 'a', '5', '5'),
                Reg::A6 => (2nat, 'a', '6', '6'),
                Reg::A7 => (2nat, 'a', '7', '7'),
                Reg::S2 => (2nat, 's', '2', '2'),
                Reg::S3 => (2nat, 's', '3', '3'),
                Reg::S4 => (2nat, 's', '4', '4'),
                Reg::S5 => (2nat, 's', '5', '5'),
                Reg::S6 => (2nat, 's', '6', '6'),
                Reg::S7 => (2nat, 's', '7', '7'),
                Reg::S8 => (2nat, 's', '8', '8'),
                Reg::S9 => (2nat, 's', '9', '9'),
                Reg::S10 => (3nat, 's', '1', '0'),
                Reg::S11 => (3nat, 's', '1', '1'),
                Reg::T3 => (2nat, 't', '3', '3'),
                Reg::T4 => (2nat, 't', '4', '4'),
                Reg::T5 => (2nat, 't', '5', '5'),
                Reg::T6 => (2nat, 't', '6', '6'),
                Reg::Mstatus => (7nat, 'm', 's', 's'),
                Reg::Mepc => (4nat, 'm', 'e', 'c'),
                Reg::Mtvec => (5nat, 'm', 't', 'c'),
                Reg::Mcause => (6nat, 'm', 'c', 'e'),
            },
    {
        Self::lemma_names_revealed();
    }

    /// No two registers share a name.
    pub proof fn lemma_names_distinct(a: Reg, b: Reg)
        ensures
            a.name() == b.name() <==> a == b,
    {
        Self::lemma_name_key(a);
        Self::lemma_name_key(b);
    }

    /// Canonical names hold no upper-case letter.
    pub proof fn lemma_name_is_lower(r: Reg)
        ensures
            ascii_lower(r.name()) == r.name(),
    {
        Self::lemma_names_revealed();
        assert(ascii_lower(r.name()) =~= r.name());
    }

    /// A name denotes the register whose canonical name it is, case aside.
    pub proof fn lemma_named_is(name: Seq<char>, r: Reg)
        requires
            r.name() == ascii_lower(name),
        ensures
            Reg::named(name) == Some(r),
    {
        let found = choose|x: Reg| x.name() == ascii_lower(name);
        Self::lemma_names_distinct(found, r);
    }

    /// A register is found again under its own name.
    pub proof fn lemma_named_own_name(r: Reg)
        ensures
            Reg::named(r.name()) == Some(r),
    {
        Self::lemma_name_is_lower(r);
        Self::lemma_named_is(r.name(), r);
    }

    /// Names that differ only in the case of ASCII letters denote the same
    /// register.
    pub proof fn lemma_named_ignores_case(a: Seq<char>, b: Seq<char>)
        requires
            ascii_lower(a) == ascii_lower(b),
        ensures
            Reg::named(a) == Reg::named(b),
    {
    }

    /// No two registers share an encoding.
    pub proof fn lemma_encoding_injective(a: Reg, b: Reg)
        ensures
            a.encoding() == b.encoding() <==> a == b,
    {
    }

    /// A register is found again under its own number.
    pub proof fn lemma_numbered_own_number(r: Reg)
        ensures
            Reg::numbered(r.encoding()) == Some(r),
    {
        let found = choose|x: Reg| x.encoding() == r.encoding();
        Self::lemma_encoding_injective(found, r);
    }

    /// A general-purpose register fits in the five bits of a register field;
    /// a control and status register takes up to twelve.
    pub proof fn lemma_encoding_width(r: Reg)
        ensures
            r.is_general_purpose() <==> r.encoding() < 32,
            r.encoding() < 0x1000,
    {
    }

    /// Finds the register that a name denotes, if any.
    pub fn lookup(name: &str) -> (found: Option<Reg>)
        ensures
            found == Reg::named(name@),
    {
        let lowered = lowered_chars(name);
        proof {
            Reg::lemma_names_revealed();
        }
        if spells(&lowered, "zero") {
            proof {
                Reg::lemma_named_is(name@, Reg::Zero);
            }
            Some(Reg::Zero)
        } else if spells(&lowered, "ra") {
            proof {
                Reg::lemma_named_is(name@, Reg::Ra);
            }
            Some(Reg::Ra)
        } else if spells(&lowered, "sp") {
            proof {
                Reg::lemma_named_is(name@, Reg::Sp);
            }
            Some(Reg::Sp)
        } else if spells(&lowered, "gp") {
            proof {
                Reg::lemma_named_is(name@, Reg::Gp);
            }
            Some(Reg::Gp)
        } else if spells(&lowered, "tp") {
            proof {
                Reg::lemma_named_is(name@, Reg::Tp);
            }
            Some(Reg::Tp)
        } else if spells(&lowered, "t0") {
            proof {
                Reg::lemma_named_is(name@, Reg::T0);
            }
            Some(Reg::T0)
        } else if spells(&lowered, "t1") {
            proof {
                Reg::lemma_named_is(name@, Reg::T1);
            }
            Some(Reg::T1)
        } else if spells(&lowered, "t2") {
            proof {
                Reg::lemma_named_is(name@, Reg::T2);
            }
            Some(Reg::T2)
        } else if spells(&lowered, "s0") {
            proof {
                Reg::lemma_named_is(name@, Reg::S0);
            }
            Some(Reg::S0)
        } else if spells(&lowered, "s1") {
            proof {
                Reg::lemma_named_is(name@, Reg::S1);
            }
            Some(Reg::S1)
        } else if spells(&lowered, "a0") {
            proof {
                Reg::lemma_named_is(name@, Reg::A0);
            }
            Some(Reg::A0)
        } else if spells(&lowered, "a1") {
            proof {
                Reg::lemma_named_is(name@, Reg::A1);
            }
            Some(Reg::A1)
        } else if spells(&lowered, "a2") {
            proof {
                Reg::lemma_named_is(name@, Reg::A2);
            }
            Some(Reg::A2)
        } else if spells(&lowered, "a3") {
            proof {
                Reg::lemma_named_is(name@, Reg::A3);
            }
            Some(Reg::A3)
        } else if spells(&lowered, "a4") {
            proof {
                Reg::lemma_named_is(name@, Reg::A4);
            }
            Some(Reg::A4)
        } else if spells(&lowered, "a5") {
            proof {
                Reg::lemma_named_is(name@, Reg::A5);
            }
            Some(Reg::A5)
        } else if spells(&lowered, "a6") {
            proof {
                Reg::lemma_named_is(name@, Reg::A6);
            }
            Some(Reg::A6)
        } else if spells(&lowered, "a7") {
            proof {
                Reg::lemma_named_is(name@, Reg::A7);
            }
            Some(Reg::A7)
        } else if spells(&lowered, "s2") {
            proof {
                Reg::lemma_named_is(name@, Reg::S2);
            }
            Some(Reg::S2)
        } else if spells(&lowered, "s3") {
            proof {
                Reg::lemma_named_is(name@, Reg::S3);
            }
            Some(Reg::S3)
        } else if spells(&lowered, "s4") {
            proof {
                Reg::lemma_named_is(name@, Reg::S4);
            }
            Some(Reg::S4)
        } else if spells(&lowered, "s5") {
            proof {
                Reg::lemma_named_is(name@, Reg::S5);
            }
            Some(Reg::S5)
        } else if spells(&lowered, "s6") {
            proof {
                Reg::lemma_named_is(name@, Reg::S6);
            }
            Some(Reg::S6)
        } else if spells(&lowered, "s7") {
            proof {
                Reg::lemma_named_is(name@, Reg::S7);
            }
            Some(Reg::S7)
        } else if spells(&lowered, "s8") {
            proof {
                Reg::lemma_named_is(name@, Reg::S8);
            }
            Some(Reg::S8)
        } else if spells(&lowered, "s9") {
            proof {
                Reg::lemma_named_is(name@, Reg::S9);
            }
            Some(Reg::S9)
        } else if spells(&lowered, "s10") {
            proof {
                Reg::lemma_named_is(name@, Reg::S10);
            }
            Some(Reg::S10)
        } else if spells(&lowered, "s11") {
            proof {
                Reg::lemma_named_is(name@, Reg::S11);
            }
            Some(Reg::S11)
        } else if spells(&lowered, "t3") {
            proof {
                Reg::lemma_named_is(name@, Reg::T3);
            }
            Some(Reg::T3)
        } else if spells(&lowered, "t4") {
            proof {
                Reg::lemma_named_is(name@, Reg::T4);
            }
            Some(Reg::T4)
        } else if spells(&lowered, "t5") {
            proof {
                Reg::lemma_named_is(name@, Reg::T5);
            }
            Some(Reg::T5)
        } else if spells(&lowered, "t6") {
            proof {
                Reg::lemma_named_is(name@, Reg::T6);
            }
            Some(Reg::T6)
        } else if spells(&lowered, "mstatus") {
            proof {
                Reg::lemma_named_is(name@, Reg::Mstatus);
            }
            Some(Reg::Mstatus)
        } else if spells(&lowered, "mepc") {
            proof {
                Reg::lemma_named_is(name@, Reg::Mepc);
            }
            Some(Reg::Mepc)
        } else if spells(&lowered, "mtvec") {
            proof {
                Reg::lemma_named_is(name@, Reg::Mtvec);
            }
            Some(Reg::Mtvec)
        } else if spells(&lowered, "mcause") {
            proof {
                Reg::lemma_named_is(name@, Reg::Mcause);
            }
            Some(Reg::Mcause)
        } else {
            assert forall|r: Reg| r.name() != ascii_lower(name@) by {}
            None
        }
    }

    /// The number that stands for the register in an instruction word.
    pub fn number(&self) -> (n: u64)
        ensures
            n == self.encoding(),
    {
        match self {
            Reg::Zero => 0x00,
            Reg::Ra => 0x01,
            Reg::Sp => 0x02,
            Reg::Gp => 0x03,
            Reg::Tp => 0x04,
            Reg::T0 => 0x05,
            Reg::T1 => 0x06,
            Reg::T2 => 0x07,
            Reg::S0 => 0x08,
            Reg::S1 => 0x09,
            Reg::A0 => 0x0a,
            Reg::A1 => 0x0b,
            Reg::A2 => 0x0c,
            Reg::A3 => 0x0d,
            Reg::A4 => 0x0e,
            Reg::A5 => 0x0f,
            Reg::A6 => 0x10,
            Reg::A7 => 0x11,
            Reg::S2 => 0x12,
            Reg::S3 => 0x13,
            Reg::S4 => 0x14,
            Reg::S5 => 0x15,
            Reg::S6 => 0x16,
            Reg::S7 => 0x17,
            Reg::S8 => 0x18,
            Reg::S9 => 0x19,
            Reg::S10 => 0x1a,
            Reg::S11 => 0x1b,
            Reg::T3 => 0x1c,
            Reg::T4 => 0x1d,
            Reg::T5 => 0x1e,
            Reg::T6 => 0x1f,
            Reg::Mstatus => 0x300,
            Reg::Mepc => 0x341,
            Reg::Mtvec => 0x305,
            Reg::Mcause => 0x342,
        }
    }

    /// The register that a number stands for, if it stands for one.
    pub fn from_number(number: u64) -> (found: Option<Reg>)
        ensures
            found == Reg::numbered(number),
    {
        let found = match number {
            0x00 => Some(Reg::Zero),
            0x01 => Some(Reg::Ra),
            0x02 => Some(Reg::Sp),
            0x03 => Some(Reg::Gp),
            0x04 => Some(Reg::Tp),
            0x05 => Some(Reg::T0),
            0x06 => Some(Reg::T1),
            0x07 => Some(Reg::T2),
            0x08 => Some(Reg::S0),
            0x09 => Some(Reg::S1),
            0x0a => Some(Reg::A0),
            0x0b => Some(Reg::A1),
            0x0c => Some(Reg::A2),
            0x0d => Some(Reg::A3),
            0x0e => Some(Reg::A4),
            0x0f => Some(Reg::A5),
            0x10 => Some(Reg::A6),
            0x11 => Some(Reg::A7),
            0x12 => Some(Reg::S2),
            0x13 => Some(Reg::S3),
            0x14 => Some(Reg::S4),
            0x15 => Some(Reg::S5),
            0x16 => Some(Reg::S6),
            0x17 => Some(Reg::S7),
            0x18 => Some(Reg::S8),
            0x19 => Some(Reg::S9),
            0x1a => Some(Reg::S10),
            0x1b => Some(Reg::S11),
            0x1c => Some(Reg::T3),
            0x1d => Some(Reg::T4),
            0x1e => Some(Reg::T5),
            0x1f => Some(Reg::T6),
            0x300 => Some(Reg::Mstatus),
            0x341 => Some(Reg::Mepc),
            0x305 => Some(Reg::Mtvec),
            0x342 => Some(Reg::Mcause),
            _ => None,
        };
        proof {
            match found {
                Some(reg) => {
                    Reg::lemma_numbered_own_number(reg);
                },
                None => {
                    assert forall|r: Reg| r.encoding() != number by {}
                },
            }
        }
        found
    }

    /// The canonical name of the register.
    pub fn to_name(&self) -> (name: &'static str)
        ensures
            name@ == self.name(),
    {
        match self {
            Reg::Zero => "zero",
            Reg::Ra => "ra",
            Reg::Sp => "sp",
            Reg::Gp => "gp",
            Reg::Tp => "tp",
            Reg::T0 => "t0",
            Reg::T1 => "t1",
            Reg::T2 => "t2",
            Reg::S0 => "s0",
            Reg::S1 => "s1",
            Reg::A0 => "a0",
            Reg::A1 => "a1",
            Reg::A2 => "a2",
            Reg::A3 => "a3",
            Reg::A4 => "a4",
            Reg::A5 => "a5",
            Reg::A6 => "a6",
            Reg::A7 => "a7",
            Reg::S2 => "s2",
            Reg::S3 => "s3",
            Reg::S4 => "s4",
            Reg::S5 => "s5",
            Reg::S6 => "s6",
            Reg::S7 => "s7",
            Reg::S8 => "s8",
            Reg::S9 => "s9",
            Reg::S10 => "s10",
            Reg::S11 => "s11",
            Reg::T3 => "t3",
            Reg::T4 => "t4",
            Reg::T5 => "t5",
            Reg::T6 => "t6",
            Reg::Mstatus => "mstatus",
            Reg::Mepc => "mepc",
            Reg::Mtvec => "mtvec",
            Reg::Mcause => "mcause",
        }
    }

    /// Reads a register name, or says which name is not one.
    pub fn parse(name: &str) -> (r: Result<Reg, String>)
        ensures
            match r {
                Ok(reg) => Reg::named(name@) == Some(reg),
                Err(message) => Reg::named(name@) is None && message@ == Reg::unknown_message(
                    name@,
                ),
            },
    {
        match Reg::lookup(name) {
            Some(reg) => Ok(reg),
            None => Err("Unknown register: ".to_owned().concat(name)),
        }
    }
}

/// The characters of a string, ASCII letters in lower case.
fn lowered_chars(s: &str) -> (v: Vec<char>)
    ensures
        v@ == ascii_lower(s@),
{
    let mut v: Vec<char> = Vec::new();
    for c in it: s.chars()
        invariant
            it.seq() == s@,
            v@ == ascii_lower(s@.take(it.index() as int)),
    {
        let l = if c >= 'A' && c <= 'Z' {
            ((c as u8) + 32u8) as char
        } else {
            c
        };
        v.push(l);
        assert(ascii_lower(s@.take(it.index() + 1)) =~= ascii_lower(
            s@.take(it.index() as int),
        ).push(l));
    }
    assert(s@.take(s@.len() as int) =~= s@);
    v
}

impl FromStr for Reg {
    type Err = String;

    /// Reads a register name, or says which name is not one.
    fn from_str(s: &str) -> (r: Result<Self, Self::Err>)
        ensures
            match r {
                Ok(reg) => Reg::named(s@) == Some(reg),
                Err(message) => Reg::named(s@) is None && message@ == Reg::unknown_message(s@),
            },
    {
        Reg::parse(s)
    }
}

impl TryFrom<&String> for Reg {
    type Error = String;

    /// Reads a register name, or says which name is not one.
    fn try_from(value: &String) -> (r: Result<Self, Self::Error>)
        ensures
            match r {
                Ok(reg) => Reg::named(value@) == Some(reg),
                Err(message) => Reg::named(value@) is None && message@ == Reg::unknown_message(
                    value@,
                ),
            },
    {
        Reg::parse(value.as_str())
    }
}

/// What the conversion returns is stated on `try_from` itself, over the
/// text of the error; the error as a value is not told here.
impl TryFromSpecImpl<&String> for Reg {
    open spec fn obeys_try_from_spec() -> bool {
        false
    }

    open spec fn try_from_spec(value: &String) -> Result<Self, Self::Error> {
        match Reg::named(value@) {
            Some(reg) => Ok(reg),
            None => Err(arbitrary()),
        }
    }
}

impl From<&Reg> for u64 {
    fn from(value: &Reg) -> (n: u64)
    {
        value.number()
    }
}

impl FromSpecImpl<&Reg> for u64 {
    open spec fn obeys_from_spec() -> bool {
        true
    }

    open spec fn from_spec(value: &Reg) -> u64 {
        value.encoding()
    }
}

impl From<Reg> for u64 {
    fn from(value: Reg) -> (n: u64)
    {
        value.number()
    }
}

impl FromSpecImpl<Reg> for u64 {
    open spec fn obeys_from_spec() -> bool {
        true
    }

    open spec fn from_spec(value: Reg) -> u64 {
        value.encoding()
    }
}

} // verus!
