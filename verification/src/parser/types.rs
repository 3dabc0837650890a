//! Typed operands: integers of ten fixed widths, and references to
//! registers. Integers of the same width add with an overflow check; nothing
//! else adds.

use crate::text::same_text;
use vstd::prelude::*;
use vstd::std_specs::convert::{FromSpecImpl, TryFromSpecImpl};

verus! {

/// Width and signedness of an integer operand.
#[derive(Debug, PartialEq, Eq, Clone, Copy, Structural)]
pub enum Width {
    I8,
    U8,
    I16,
    U16,
    I32,
    U32,
    I64,
    U64,
    I128,
    U128,
}

/// Why two operands do not add, or why one does not convert.
#[derive(Debug, PartialEq, Eq, Clone)]
pub enum TypeError {
    /// The two operands are not integers of one width and signedness.
    MismatchedTypes,
    /// The sum does not fit the operands' width.
    Overflow,
    /// The operand is not of the kind asked for, or does not fit it.
    CannotCast(Type),
}

/// An operand: an integer of a fixed width, or the name of a register
/// with its `%` in front.
#[derive(Debug, PartialEq, Eq)]
pub enum Type {
    I8(i8),
    U8(u8),
    I16(i16),
    U16(u16),
    I32(i32),
    U32(u32),
    I64(i64),
    U64(u64),
    I128(i128),
    U128(u128),
    Value(String),
}

/// What an operand stands for.
pub ghost enum TypeView {
    /// An integer of the given width; the value lies within the width's range.
    Int { width: Width, value: int },
    /// A reference by name.
    Value(Seq<char>),
}

/// What a [`TypeError`] stands for.
pub ghost enum TypeErrorView {
    MismatchedTypes,
    Overflow,
    CannotCast(TypeView),
}

impl Width {
    /// The text that names the width in source code.
    pub open spec fn tag(self) -> Seq<char> {
        match self {
            Width::I8 => "i8"@,
            Width::U8 => "u8"@,
            Width::I16 => "i16"@,
            Width::U16 => "u16"@,
            Width::I32 => "i32"@,
            Width::U32 => "u32"@,
            Width::I64 => "i64"@,
            Width::U64 => "u64"@,
            Width::I128 => "i128"@,
            Width::U128 => "u128"@,
        }
    }

    /// Whether integers of this width carry a sign.
    pub open spec fn signed(self) -> bool {
        match self {
            Width::I8 => true,
            Width::U8 => false,
            Width::I16 => true,
            Width::U16 => false,
            Width::I32 => true,
            Width::U32 => false,
            Width::I64 => true,
            Width::U64 => false,
            Width::I128 => true,
            Width::U128 => false,
        }
    }

    /// The least integer of this width.
    pub open spec fn min(self) -> int {
        match self {
            Width::I8 => i8::MIN as int,
            Width::U8 => u8::MIN as int,
            Width::I16 => i16::MIN as int,
            Width::U16 => u16::MIN as int,
            Width::I32 => i32::MIN as int,
            Width::U32 => u32::MIN as int,
            Width::I64 => i64::MIN as int,
            Width::U64 => u64::MIN as int,
            Width::I128 => i128::MIN as int,
            Width::U128 => u128::MIN as int,
        }
    }

    /// The greatest integer of this width.
    pub open spec fn max(self) -> int {
        match self {
            Width::I8 => i8::MAX as int,
            Width::U8 => u8::MAX as int,
            Width::I16 => i16::MAX as int,
            Width::U16 => u16::MAX as int,
            Width::I32 => i32::MAX as int,
            Width::U32 => u32::MAX as int,
            Width::I64 => i64::MAX as int,
            Width::U64 => u64::MAX as int,
            Width::I128 => i128::MAX as int,
            Width::U128 => u128::MAX as int,
        }
    }

    /// Whether an integer lies within the range of this width.
    pub open spec fn holds(self, value: int) -> bool {
        self.min() <= value <= self.max()
    }

    /// The width that a tag names, if it names one.
    pub open spec fn tagged(tag: Seq<char>) -> Option<Width> {
        if exists|w: Width| w.tag() == tag {
            Some(choose|w: Width| w.tag() == tag)
        } else {
            None
        }
    }

    /// Spells out every tag character by character.
    pub proof fn lemma_tags_revealed()
        ensures
            Width::I8.tag() == seq!['i', '8'],
            Width::U8.tag() == seq!['u', '8'],
            Width::I16.tag() == seq!['i', '1', '6'],
            Width::U16.tag() == seq!['u', '1', '6'],
            Width::I32.tag() == seq!['i', '3', '2'],
            Width::U32.tag() == seq!['u', '3', '2'],
            Width::I64.tag() == seq!['i', '6', '4'],
            Width::U64.tag() == seq!['u', '6', '4'],
            Width::I128.tag() == seq!['i', '1', '2', '8'],
            Width::U128.tag() == seq!['u', '1', '2', '8'],
    {
        reveal_strlit("i8");
        reveal_strlit("u8");
        reveal_strlit("i16");
        reveal_strlit("u16");
        reveal_strlit("i32");
        reveal_strlit("u32");
        reveal_strlit("i64");
        reveal_strlit("u64");
        reveal_strlit("i128");
        reveal_strlit("u128");
        assert(Width::I8.tag() =~= seq!['i', '8']);
        assert(Width::U8.tag() =~= seq!['u', '8']);
        assert(Width::I16.tag() =~= seq!['i', '1', '6']);
        assert(Width::U16.tag() =~= seq!['u', '1', '6']);
        assert(Width::I32.tag() =~= seq!['i', '3', '2']);
        assert(Width::U32.tag() =~= seq!['u', '3', '2']);
        assert(Width::I64.tag() =~= seq!['i', '6', '4']);
        assert(Width::U64.tag() =~= seq!['u', '6', '4']);
        assert(Width::I128.tag() =~= seq!['i', '1', '2', '8']);
        assert(Width::U128.tag() =~= seq!['u', '1', '2', '8']);
    }

    /// No two widths share a tag.
    pub proof fn lemma_tags_distinct(a: Width, b: Width)
        ensures
            a.tag() == b.tag() <==> a == b,
    {
        Self::lemma_tags_revealed();
        if a != b {
            assert(a.tag().len() != b.tag().len() || a.tag()[0] != b.tag()[0] || a.tag()[1]
                != b.tag()[1]);
        }
    }

    /// A tag names the width whose tag it is.
    pub proof fn lemma_tagged_is(tag: Seq<char>, width: Width)
        requires
            width.tag() == tag,
        ensures
            Width::tagged(tag) == Some(width),
    {
        let found = choose|w: Width| w.tag() == tag;
        Self::lemma_tags_distinct(found, width);
    }

    /// A width is found again under its own tag.
    pub proof fn lemma_tagged_own_tag(width: Width)
        ensures
            Width::tagged(width.tag()) == Some(width),
    {
        Self::lemma_tagged_is(width.tag(), width);
    }

    /// Reads a width tag.
    pub fn from_tag(tag: &str) -> (found: Option<Width>)
        ensures
            found == Width::tagged(tag@),
    {
        if same_text(tag, "i8") {
            proof {
                Width::lemma_tagged_is(tag@, Width::I8);
            }
            Some(Width::I8)
        } else if same_text(tag, "u8") {
            proof {
                Width::lemma_tagged_is(tag@, Width::U8);
            }
            Some(Width::U8)
        } else if same_text(tag, "i16") {
            proof {
                Width::lemma_tagged_is(tag@, Width::I16);
            }
            Some(Width::I16)
        } else if same_text(tag, "u16") {
            proof {
                Width::lemma_tagged_is(tag@, Width::U16);
            }
            Some(Width::U16)
        } else if same_text(tag, "i32") {
            proof {
                Width::lemma_tagged_is(tag@, Width::I32);
            }
            Some(Width::I32)
        } else if same_text(tag, "u32") {
            proof {
                Width::lemma_tagged_is(tag@, Width::U32);
            }
            Some(Width::U32)
        } else if same_text(tag, "i64") {
            proof {
                Width::lemma_tagged_is(tag@, Width::I64);
            }
            Some(Width::I64)
        } else if same_text(tag, "u64") {
            proof {
                Width::lemma_tagged_is(tag@, Width::U64);
            }
            Some(Width::U64)
        } else if same_text(tag, "i128") {
            proof {
                Width::lemma_tagged_is(tag@, Width::I128);
            }
            Some(Width::I128)
        } else if same_text(tag, "u128") {
            proof {
                Width::lemma_tagged_is(tag@, Width::U128);
            }
            Some(Width::U128)
        } else {
            assert forall|w: Width| w.tag() != tag@ by {}
            None
        }
    }

    /// The tag of the width, as text.
    pub fn to_tag(&self) -> (tag: String)
        ensures
            tag@ == self.tag(),
    {
        match self {
            Width::I8 => "i8".to_owned(),
            Width::U8 => "u8".to_owned(),
            Width::I16 => "i16".to_owned(),
            Width::U16 => "u16".to_owned(),
            Width::I32 => "i32".to_owned(),
            Width::U32 => "u32".to_owned(),
            Width::I64 => "i64".to_owned(),
            Width::U64 => "u64".to_owned(),
            Width::I128 => "i128".to_owned(),
            Width::U128 => "u128".to_owned(),
        }
    }
}

impl Clone for Type {
    fn clone(&self) -> (copy: Type)
        ensures
            copy@ == self@,
    {
        match self {
            Type::I8(value) => Type::I8(*value),
            Type::U8(value) => Type::U8(*value),
            Type::I16(value) => Type::I16(*value),
            Type::U16(value) => Type::U16(*value),
            Type::I32(value) => Type::I32(*value),
            Type::U32(value) => Type::U32(*value),
            Type::I64(value) => Type::I64(*value),
            Type::U64(value) => Type::U64(*value),
            Type::I128(value) => Type::I128(*value),
            Type::U128(value) => Type::U128(*value),
            Type::Value(name) => Type::Value(name.clone()),
        }
    }
}

impl View for Type {
    type V = TypeView;

    open spec fn view(&self) -> TypeView {
        match self {
            Type::I8(value) => TypeView::Int { width: Width::I8, value: *value as int },
            Type::U8(value) => TypeView::Int { width: Width::U8, value: *value as int },
            Type::I16(value) => TypeView::Int { width: Width::I16, value: *value as int },
            Type::U16(value) => TypeView::Int { width: Width::U16, value: *value as int },
            Type::I32(value) => TypeView::Int { width: Width::I32, value: *value as int },
            Type::U32(value) => TypeView::Int { width: Width::U32, value: *value as int },
            Type::I64(value) => TypeView::Int { width: Width::I64, value: *value as int },
            Type::U64(value) => TypeView::Int { width: Width::U64, value: *value as int },
            Type::I128(value) => TypeView::Int { width: Width::I128, value: *value as int },
            Type::U128(value) => TypeView::Int { width: Width::U128, value: *value as int },
            Type::Value(name) => TypeView::Value(name@),
        }
    }
}

impl DeepView for Type {
    type V = TypeView;

    open spec fn deep_view(&self) -> TypeView {
        self@
    }
}

impl View for TypeError {
    type V = TypeErrorView;

    open spec fn view(&self) -> TypeErrorView {
        match self {
            TypeError::MismatchedTypes => TypeErrorView::MismatchedTypes,
            TypeError::Overflow => TypeErrorView::Overflow,
            TypeError::CannotCast(operand) => TypeErrorView::CannotCast(operand@),
        }
    }
}

impl TypeView {
    /// Whether an integer operand lies within the range of its width. Every
    /// view of a [`Type`] does.
    pub open spec fn well_formed(self) -> bool {
        match self {
            TypeView::Int { width, value } => width.holds(value),
            TypeView::Value(_) => true,
        }
    }

    /// The sum of two operands: defined for two integers of one width whose
    /// sum fits that width.
    pub open spec fn sum(self, other: TypeView) -> Result<TypeView, TypeErrorView> {
        match (self, other) {
            (TypeView::Int { width: w1, value: a }, TypeView::Int { width: w2, value: b }) => {
                if w1 != w2 {
                    Err(TypeErrorView::MismatchedTypes)
                } else if !w1.holds(a + b) {
                    Err(TypeErrorView::Overflow)
                } else {
                    Ok(TypeView::Int { width: w1, value: a + b })
                }
            },
            _ => Err(TypeErrorView::MismatchedTypes),
        }
    }

    /// The operand as the constant of an instruction: an integer that fits
    /// 64 signed bits.
    pub open spec fn immediate(self) -> Result<i64, TypeErrorView> {
        match self {
            TypeView::Int { width, value } => {
                if i64::MIN <= value <= i64::MAX {
                    Ok(value as i64)
                } else {
                    Err(TypeErrorView::CannotCast(self))
                }
            },
            TypeView::Value(_) => Err(TypeErrorView::CannotCast(self)),
        }
    }

    /// Integer addition neither depends on the order of the operands nor, as
    /// long as every partial sum fits, on how the sums are grouped.
    pub proof fn lemma_sum_commutes(a: TypeView, b: TypeView)
        ensures
            a.sum(b) == b.sum(a),
    {
    }

    /// Zero of the operand's own width changes nothing.
    pub proof fn lemma_sum_zero(a: TypeView, width: Width)
        requires
            a.well_formed(),
            a matches TypeView::Int { width: w, .. } && w == width,
        ensures
            a.sum(TypeView::Int { width, value: 0 }) == Ok::<TypeView, TypeErrorView>(a),
            (TypeView::Int { width, value: 0 }).sum(a) == Ok::<TypeView, TypeErrorView>(a),
    {
    }
}

impl Type {
    /// Every operand's integer lies within the range of its width.
    pub proof fn lemma_view_well_formed(self)
        ensures
            self@.well_formed(),
    {
    }

    /// A reference by name; the name of a register has its `%` in front.
    pub fn reference(name: &str) -> (operand: Type)
        ensures
            operand@ == TypeView::Value(name@),
    {
        Type::Value(name.to_owned())
    }

    /// Zero of the given width.
    pub fn zero(width: Width) -> (zero: Type)
        ensures
            zero@ == (TypeView::Int { width, value: 0 }),
    {
        match width {
            Width::I8 => Type::I8(0),
            Width::U8 => Type::U8(0),
            Width::I16 => Type::I16(0),
            Width::U16 => Type::U16(0),
            Width::I32 => Type::I32(0),
            Width::U32 => Type::U32(0),
            Width::I64 => Type::I64(0),
            Width::U64 => Type::U64(0),
            Width::I128 => Type::I128(0),
            Width::U128 => Type::U128(0),
        }
    }

    /// Adds `val` to the operand in place. Two integers of one width add if
    /// their sum fits the width; otherwise the operand stays as it was.
    pub fn try_add(&mut self, val: Type) -> (r: Result<(), TypeError>)
        ensures
            match old(self)@.sum(val@) {
                Ok(total) => r is Ok && final(self)@ == total,
                Err(e) => r is Err && r->Err_0@ == e && final(self)@ == old(self)@,
            },
    {
        let total = match (&*self, &val) {
            (Type::I8(a), Type::I8(b)) => match a.checked_add(*b) {
                Some(sum) => Type::I8(sum),
                None => return Err(TypeError::Overflow),
            },
            (Type::U8(a), Type::U8(b)) => match a.checked_add(*b) {
                Some(sum) => Type::U8(sum),
                None => return Err(TypeError::Overflow),
            },
            (Type::I16(a), Type::I16(b)) => match a.checked_add(*b) {
                Some(sum) => Type::I16(sum),
                None => return Err(TypeError::Overflow),
            },
            (Type::U16(a), Type::U16(b)) => match a.checked_add(*b) {
                Some(sum) => Type::U16(sum),
                None => return Err(TypeError::Overflow),
            },
            (Type::I32(a), Type::I32(b)) => match a.checked_add(*b) {
                Some(sum) => Type::I32(sum),
                None => return Err(TypeError::Overflow),
            },
            (Type::U32(a), Type::U32(b)) => match a.checked_add(*b) {
                Some(sum) => Type::U32(sum),
                None => return Err(TypeError::Overflow),
            },
            (Type::I64(a), Type::I64(b)) => match a.checked_add(*b) {
                Some(sum) => Type::I64(sum),
                None => return Err(TypeError::Overflow),
            },
            (Type::U64(a), Type::U64(b)) => match a.checked_add(*b) {
                Some(sum) => Type::U64(sum),
                None => return Err(TypeError::Overflow),
            },
            (Type::I128(a), Type::I128(b)) => match a.checked_add(*b) {
                Some(sum) => Type::I128(sum),
                None => return Err(TypeError::Overflow),
            },
            (Type::U128(a), Type::U128(b)) => match a.checked_add(*b) {
                Some(sum) => Type::U128(sum),
                None => return Err(TypeError::Overflow),
            },
            _ => return Err(TypeError::MismatchedTypes),
        };
        *self = total;
        Ok(())
    }

    /// The operand as the constant of an instruction. An integer that fits 64
    /// signed bits converts, whatever its width; anything else is refused and
    /// handed back in the error.
    pub fn to_immediate(self) -> (r: Result<i64, TypeError>)
        ensures
            match self@.immediate() {
                Ok(value) => r == Ok::<i64, TypeError>(value),
                Err(e) => r is Err && r->Err_0@ == e && r->Err_0 == TypeError::CannotCast(self),
            },
    {
        match self {
            Type::I8(value) => Ok(value as i64),
            Type::U8(value) => Ok(value as i64),
            Type::I16(value) => Ok(value as i64),
            Type::U16(value) => Ok(value as i64),
            Type::I32(value) => Ok(value as i64),
            Type::U32(value) => Ok(value as i64),
            Type::I64(value) => Ok(value),
            Type::U64(value) => {
                if value <= 0x7fff_ffff_ffff_ffff {
                    Ok(value as i64)
                } else {
                    Err(TypeError::CannotCast(Type::U64(value)))
                }
            },
            Type::I128(value) => {
                if -0x8000_0000_0000_0000 <= value && value <= 0x7fff_ffff_ffff_ffff {
                    Ok(value as i64)
                } else {
                    Err(TypeError::CannotCast(Type::I128(value)))
                }
            },
            Type::U128(value) => {
                if value <= 0x7fff_ffff_ffff_ffff {
                    Ok(value as i64)
                } else {
                    Err(TypeError::CannotCast(Type::U128(value)))
                }
            },
            Type::Value(name) => Err(TypeError::CannotCast(Type::Value(name))),
        }
    }
}

impl From<i8> for Type {
    fn from(value: i8) -> (operand: Type)
    {
        Type::I8(value)
    }
}

impl FromSpecImpl<i8> for Type {
    open spec fn obeys_from_spec() -> bool {
        true
    }

    open spec fn from_spec(value: i8) -> Type {
        Type::I8(value)
    }
}

impl TryFrom<Type> for i8 {
    type Error = TypeError;

    fn try_from(operand: Type) -> (r: Result<i8, TypeError>)
    {
        match operand {
            Type::I8(value) => Ok(value),
            _ => Err(TypeError::CannotCast(operand)),
        }
    }
}

impl TryFromSpecImpl<Type> for i8 {
    open spec fn obeys_try_from_spec() -> bool {
        true
    }

    open spec fn try_from_spec(operand: Type) -> Result<i8, TypeError> {
        match operand {
            Type::I8(value) => Ok(value),
            _ => Err(TypeError::CannotCast(operand)),
        }
    }
}

impl From<u8> for Type {
    fn from(value: u8) -> (operand: Type)
    {
        Type::U8(value)
    }
}

impl FromSpecImpl<u8> for Type {
    open spec fn obeys_from_spec() -> bool {
        true
    }

    open spec fn from_spec(value: u8) -> Type {
        Type::U8(value)
    }
}

impl TryFrom<Type> for u8 {
    type Error = TypeError;

    fn try_from(operand: Type) -> (r: Result<u8, TypeError>)
    {
        match operand {
            Type::U8(value) => Ok(value),
            _ => Err(TypeError::CannotCast(operand)),
        }
    }
}

impl TryFromSpecImpl<Type> for u8 {
    open spec fn obeys_try_from_spec() -> bool {
        true
    }

    open spec fn try_from_spec(operand: Type) -> Result<u8, TypeError> {
        match operand {
            Type::U8(value) => Ok(value),
            _ => Err(TypeError::CannotCast(operand)),
        }
    }
}

impl From<i16> for Type {
    fn from(value: i16) -> (operand: Type)
    {
        Type::I16(value)
    }
}

impl FromSpecImpl<i16> for Type {
    open spec fn obeys_from_spec() -> bool {
        true
    }

    open spec fn from_spec(value: i16) -> Type {
        Type::I16(value)
    }
}

impl TryFrom<Type> for i16 {
    type Error = TypeError;

    fn try_from(operand: Type) -> (r: Result<i16, TypeError>)
    {
        match operand {
            Type::I16(value) => Ok(value),
            _ => Err(TypeError::CannotCast(operand)),
        }
    }
}

impl TryFromSpecImpl<Type> for i16 {
    open spec fn obeys_try_from_spec() -> bool {
        true
    }

    open spec fn try_from_spec(operand: Type) -> Result<i16, TypeError> {
        match operand {
            Type::I16(value) => Ok(value),
            _ => Err(TypeError::CannotCast(operand)),
        }
    }
}

impl From<u16> for Type {
    fn from(value: u16) -> (operand: Type)
    {
        Type::U16(value)
    }
}

impl FromSpecImpl<u16> for Type {
    open spec fn obeys_from_spec() -> bool {
        true
    }

    open spec fn from_spec(value: u16) -> Type {
        Type::U16(value)
    }
}

impl TryFrom<Type> for u16 {
    type Error = TypeError;

    fn try_from(operand: Type) -> (r: Result<u16, TypeError>)
    {
        match operand {
            Type::U16(value) => Ok(value),
            _ => Err(TypeError::CannotCast(operand)),
        }
    }
}

impl TryFromSpecImpl<Type> for u16 {
    open spec fn obeys_try_from_spec() -> bool {
        true
    }

    open spec fn try_from_spec(operand: Type) -> Result<u16, TypeError> {
        match operand {
            Type::U16(value) => Ok(value),
            _ => Err(TypeError::CannotCast(operand)),
        }
    }
}

impl From<i32> for Type {
    fn from(value: i32) -> (operand: Type)
    {
        Type::I32(value)
    }
}

impl FromSpecImpl<i32> for Type {
    open spec fn obeys_from_spec() -> bool {
        true
    }

    open spec fn from_spec(value: i32) -> Type {
        Type::I32(value)
    }
}

impl TryFrom<Type> for i32 {
    type Error = TypeError;

    fn try_from(operand: Type) -> (r: Result<i32, TypeError>)
    {
        match operand {
            Type::I32(value) => Ok(value),
            _ => Err(TypeError::CannotCast(operand)),
        }
    }
}

impl TryFromSpecImpl<Type> for i32 {
    open spec fn obeys_try_from_spec() -> bool {
        true
    }

    open spec fn try_from_spec(operand: Type) -> Result<i32, TypeError> {
        match operand {
            Type::I32(value) => Ok(value),
            _ => Err(TypeError::CannotCast(operand)),
        }
    }
}

impl From<u32> for Type {
    fn from(value: u32) -> (operand: Type)
    {
        Type::U32(value)
    }
}

impl FromSpecImpl<u32> for Type {
    open spec fn obeys_from_spec() -> bool {
        true
    }

    open spec fn from_spec(value: u32) -> Type {
        Type::U32(value)
    }
}

impl TryFrom<Type> for u32 {
    type Error = TypeError;

    fn try_from(operand: Type) -> (r: Result<u32, TypeError>)
    {
        match operand {
            Type::U32(value) => Ok(value),
            _ => Err(TypeError::CannotCast(operand)),
        }
    }
}

impl TryFromSpecImpl<Type> for u32 {
    open spec fn obeys_try_from_spec() -> bool {
        true
    }

    open spec fn try_from_spec(operand: Type) -> Result<u32, TypeError> {
        match operand {
            Type::U32(value) => Ok(value),
            _ => Err(TypeError::CannotCast(operand)),
        }
    }
}

impl From<i64> for Type {
    fn from(value: i64) -> (operand: Type)
    {
        Type::I64(value)
    }
}

impl FromSpecImpl<i64> for Type {
    open spec fn obeys_from_spec() -> bool {
        true
    }

    open spec fn from_spec(value: i64) -> Type {
        Type::I64(value)
    }
}

impl TryFrom<Type> for i64 {
    type Error = TypeError;

    fn try_from(operand: Type) -> (r: Result<i64, TypeError>)
    {
        match operand {
            Type::I64(value) => Ok(value),
            _ => Err(TypeError::CannotCast(operand)),
        }
    }
}

impl TryFromSpecImpl<Type> for i64 {
    open spec fn obeys_try_from_spec() -> bool {
        true
    }

    open spec fn try_from_spec(operand: Type) -> Result<i64, TypeError> {
        match operand {
            Type::I64(value) => Ok(value),
            _ => Err(TypeError::CannotCast(operand)),
        }
    }
}

impl From<u64> for Type {
    fn from(value: u64) -> (operand: Type)
    {
        Type::U64(value)
    }
}

impl FromSpecImpl<u64> for Type {
    open spec fn obeys_from_spec() -> bool {
        true
    }

    open spec fn from_spec(value: u64) -> Type {
        Type::U64(value)
    }
}

impl TryFrom<Type> for u64 {
    type Error = TypeError;

    fn try_from(operand: Type) -> (r: Result<u64, TypeError>)
    {
        match operand {
            Type::U64(value) => Ok(value),
            _ => Err(TypeError::CannotCast(operand)),
        }
    }
}

impl TryFromSpecImpl<Type> for u64 {
    open spec fn obeys_try_from_spec() -> bool {
        true
    }

    open spec fn try_from_spec(operand: Type) -> Result<u64, TypeError> {
        match operand {
            Type::U64(value) => Ok(value),
            _ => Err(TypeError::CannotCast(operand)),
        }
    }
}

impl From<i128> for Type {
    fn from(value: i128) -> (operand: Type)
    {
        Type::I128(value)
    }
}

impl FromSpecImpl<i128> for Type {
    open spec fn obeys_from_spec() -> bool {
        true
    }

    open spec fn from_spec(value: i128) -> Type {
        Type::I128(value)
    }
}

impl TryFrom<Type> for i128 {
    type Error = TypeError;

    fn try_from(operand: Type) -> (r: Result<i128, TypeError>)
    {
        match operand {
            Type::I128(value) => Ok(value),
            _ => Err(TypeError::CannotCast(operand)),
        }
    }
}

impl TryFromSpecImpl<Type> for i128 {
    open spec fn obeys_try_from_spec() -> bool {
        true
    }

    open spec fn try_from_spec(operand: Type) -> Result<i128, TypeError> {
        match operand {
            Type::I128(value) => Ok(value),
            _ => Err(TypeError::CannotCast(operand)),
        }
    }
}

impl From<u128> for Type {
    fn from(value: u128) -> (operand: Type)
    {
        Type::U128(value)
    }
}

impl FromSpecImpl<u128> for Type {
    open spec fn obeys_from_spec() -> bool {
        true
    }

    open spec fn from_spec(value: u128) -> Type {
        Type::U128(value)
    }
}

impl TryFrom<Type> for u128 {
    type Error = TypeError;

    fn try_from(operand: Type) -> (r: Result<u128, TypeError>)
    {
        match operand {
            Type::U128(value) => Ok(value),
            _ => Err(TypeError::CannotCast(operand)),
        }
    }
}

impl TryFromSpecImpl<Type> for u128 {
    open spec fn obeys_try_from_spec() -> bool {
        true
    }

    open spec fn try_from_spec(operand: Type) -> Result<u128, TypeError> {
        match operand {
            Type::U128(value) => Ok(value),
            _ => Err(TypeError::CannotCast(operand)),
        }
    }
}

impl From<String> for Type {
    fn from(value: String) -> (operand: Type)
    {
        Type::Value(value)
    }
}

impl FromSpecImpl<String> for Type {
    open spec fn obeys_from_spec() -> bool {
        true
    }

    open spec fn from_spec(value: String) -> Type {
        Type::Value(value)
    }
}

impl From<&str> for Type {
    fn from(value: &str) -> (operand: Type)
    {
        Type::reference(value)
    }
}

/// The conversion states nothing by itself: what it returns is what
/// [`Type::reference`] promises.
impl FromSpecImpl<&str> for Type {
    open spec fn obeys_from_spec() -> bool {
        false
    }

    open spec fn from_spec(value: &str) -> Type {
        arbitrary()
    }
}

impl TryFrom<Type> for String {
    type Error = TypeError;

    fn try_from(operand: Type) -> (r: Result<String, TypeError>)
    {
        match operand {
            Type::Value(name) => Ok(name),
            _ => Err(TypeError::CannotCast(operand)),
        }
    }
}

impl TryFromSpecImpl<Type> for String {
    open spec fn obeys_try_from_spec() -> bool {
        true
    }

    open spec fn try_from_spec(operand: Type) -> Result<String, TypeError> {
        match operand {
            Type::Value(name) => Ok(name),
            _ => Err(TypeError::CannotCast(operand)),
        }
    }
}

} // verus!
