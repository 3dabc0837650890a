//! Integer literals: decimal digits with an optional minus sign in front,
//! read as an operand of a declared width.

use super::types::{Type, TypeView, Width};
use crate::text::chars_of;
use vstd::prelude::*;

verus! {

/// Whether the character is one of the ten decimal digits.
pub open spec fn is_digit(c: char) -> bool {
    '0' <= c && c <= '9'
}

/// The number that a decimal digit stands for.
pub open spec fn digit_value(c: char) -> nat {
    (c as int - '0' as int) as nat
}

/// Whether every character is a decimal digit.
pub open spec fn all_digits(text: Seq<char>) -> bool {
    forall|i: int| 0 <= i < text.len() ==> is_digit(#[trigger] text[i])
}

/// The number that a run of decimal digits denotes; the empty run denotes
/// zero.
pub open spec fn decimal(digits: Seq<char>) -> nat
    decreases digits.len(),
{
    if digits.len() == 0 {
        0
    } else {
        decimal(digits.drop_last()) * 10 + digit_value(digits.last())
    }
}

/// Whether the text begins with a minus sign.
pub open spec fn has_minus(text: Seq<char>) -> bool {
    text.len() > 0 && text[0] == '-'
}

/// The digits of a literal: what follows the minus sign, or all of it.
pub open spec fn digits_of(text: Seq<char>) -> Seq<char> {
    if has_minus(text) {
        text.skip(1)
    } else {
        text
    }
}

/// Whether the text is an integer literal: at least one decimal digit and
/// nothing else, but for one minus sign that may stand in front.
pub open spec fn is_literal(text: Seq<char>) -> bool {
    digits_of(text).len() > 0 && all_digits(digits_of(text))
}

/// The integer that a literal denotes.
pub open spec fn literal_value(text: Seq<char>) -> int {
    if has_minus(text) {
        -(decimal(digits_of(text)) as int)
    } else {
        decimal(digits_of(text)) as int
    }
}

/// The operand that the text denotes as a literal of the given width, if it
/// is a literal and fits. No unsigned width takes a minus sign, not even in
/// front of zero.
pub open spec fn literal(width: Width, text: Seq<char>) -> Option<TypeView> {
    if is_literal(text) && width.holds(literal_value(text)) && (has_minus(text)
        ==> width.signed()) {
        Some(TypeView::Int { width, value: literal_value(text) })
    } else {
        None
    }
}

/// Whether the text looks like an integer: it begins with a digit or a
/// minus sign and goes on in digits.
pub open spec fn looks_like_integer(text: Seq<char>) -> bool {
    text.len() > 0 && (is_digit(text[0]) || text[0] == '-') && all_digits(text.skip(1))
}

/// The operand that a piece of source text denotes under a width tag: a
/// reference by name where the text does not look like an integer, else the
/// literal of the width that the tag names. Nothing where the tag names no
/// width or the literal does not fit it.
pub open spec fn operand_of(tag: Seq<char>, text: Seq<char>) -> Option<TypeView> {
    if !looks_like_integer(text) {
        Some(TypeView::Value(text))
    } else {
        match Width::tagged(tag) {
            Some(width) => literal(width, text),
            None => None,
        }
    }
}

/// A longer run of digits denotes no smaller a number than any of its
/// beginnings.
pub proof fn lemma_decimal_monotone(digits: Seq<char>, n: int)
    requires
        0 <= n <= digits.len(),
    ensures
        decimal(digits.take(n)) <= decimal(digits),
    decreases digits.len() - n,
{
    if n == digits.len() {
        assert(digits.take(n) =~= digits);
    } else {
        lemma_decimal_monotone(digits, n + 1);
        assert(digits.take(n + 1).drop_last() =~= digits.take(n));
    }
}

/// Reads the characters from `from` up to `to` as a literal of the given
/// width.
pub fn parse_literal(width: Width, chars: &Vec<char>, from: usize, to: usize) -> (r: Option<Type>)
    requires
        from <= to <= chars@.len(),
    ensures
        match literal(width, chars@.subrange(from as int, to as int)) {
            Some(operand) => r is Some && r->Some_0@ == operand,
            None => r is None,
        },
{
    let ghost text = chars@.subrange(from as int, to as int);
    let negative = from < to && chars[from] == '-';
    let start: usize = if negative {
        from + 1
    } else {
        from
    };
    let ghost digits = chars@.subrange(start as int, to as int);
    assert(digits =~= digits_of(text));
    assert(negative == has_minus(text));
    if start >= to {
        return None;
    }
    let mut magnitude: u128 = 0;
    let mut i: usize = start;
    while i < to
        invariant
            start <= i <= to <= chars@.len(),
            text == chars@.subrange(from as int, to as int),
            digits == chars@.subrange(start as int, to as int),
            digits == digits_of(text),
            negative == has_minus(text),
            all_digits(digits.take(i - start)),
            magnitude == decimal(digits.take(i - start)),
        decreases to - i,
    {
        let c = chars[i];
        assert(c == digits[i - start]);
        if !(c >= '0' && c <= '9') {
            assert(!is_digit(digits[i - start]));
            return None;
        }
        let digit: u128 = ((c as u8) - 48u8) as u128;
        assert(digits.take(i - start + 1).drop_last() =~= digits.take(i - start));
        assert(decimal(digits.take(i - start + 1)) == magnitude * 10 + digit);
        proof {
            lemma_decimal_monotone(digits, i - start + 1);
        }
        let tens = match magnitude.checked_mul(10) {
            Some(tens) => tens,
            None => {
                assert(!width.holds(literal_value(text)));
                return None;
            },
        };
        magnitude = match tens.checked_add(digit) {
            Some(sum) => sum,
            None => {
                assert(!width.holds(literal_value(text)));
                return None;
            },
        };
        assert forall|k: int| 0 <= k < i - start + 1 implies is_digit(
            #[trigger] digits.take(i - start + 1)[k],
        ) by {
            if k < i - start {
                assert(digits.take(i - start)[k] == digits[k]);
            }
        }
        i += 1;
    }
    assert(digits.take(to - start) =~= digits);
    assert(is_literal(text));
    in_width(width, negative, magnitude)
}

/// The operand of the given width with the given sign and magnitude, if the
/// width holds it.
fn in_width(width: Width, negative: bool, magnitude: u128) -> (r: Option<Type>)
    ensures
        ({
            let value = if negative {
                -(magnitude as int)
            } else {
                magnitude as int
            };
            if width.holds(value) && (negative ==> width.signed()) {
                r is Some && r->Some_0@ == (TypeView::Int { width, value })
            } else {
                r is None
            }
        }),
{
    if negative {
        if magnitude > 0x8000_0000_0000_0000_0000_0000_0000_0000 {
            return None;
        }
        let value: i128 = if magnitude == 0x8000_0000_0000_0000_0000_0000_0000_0000 {
            i128::MIN
        } else {
            -(magnitude as i128)
        };
        match width {
            Width::I8 => if value >= -0x80 {
                Some(Type::I8(value as i8))
            } else {
                None
            },
            Width::I16 => if value >= -0x8000 {
                Some(Type::I16(value as i16))
            } else {
                None
            },
            Width::I32 => if value >= -0x8000_0000 {
                Some(Type::I32(value as i32))
            } else {
                None
            },
            Width::I64 => if value >= -0x8000_0000_0000_0000 {
                Some(Type::I64(value as i64))
            } else {
                None
            },
            Width::I128 => Some(Type::I128(value)),
            _ => None,
        }
    } else {
        match width {
            Width::I8 => if magnitude <= 0x7f {
                Some(Type::I8(magnitude as i8))
            } else {
                None
            },
            Width::U8 => if magnitude <= 0xff {
                Some(Type::U8(magnitude as u8))
            } else {
                None
            },
            Width::I16 => if magnitude <= 0x7fff {
                Some(Type::I16(magnitude as i16))
            } else {
                None
            },
            Width::U16 => if magnitude <= 0xffff {
                Some(Type::U16(magnitude as u16))
            } else {
                None
            },
            Width::I32 => if magnitude <= 0x7fff_ffff {
                Some(Type::I32(magnitude as i32))
            } else {
                None
            },
            Width::U32 => if magnitude <= 0xffff_ffff {
                Some(Type::U32(magnitude as u32))
            } else {
                None
            },
            Width::I64 => if magnitude <= 0x7fff_ffff_ffff_ffff {
                Some(Type::I64(magnitude as i64))
            } else {
                None
            },
            Width::U64 => if magnitude <= 0xffff_ffff_ffff_ffff {
                Some(Type::U64(magnitude as u64))
            } else {
                None
            },
            Width::I128 => if magnitude <= 0x7fff_ffff_ffff_ffff_ffff_ffff_ffff_ffff {
                Some(Type::I128(magnitude as i128))
            } else {
                None
            },
            Width::U128 => Some(Type::U128(magnitude)),
        }
    }
}

/// Whether the characters look like an integer.
fn integer_like(chars: &Vec<char>) -> (b: bool)
    ensures
        b == looks_like_integer(chars@),
{
    if chars.len() == 0 {
        return false;
    }
    let first = chars[0];
    if !((first >= '0' && first <= '9') || first == '-') {
        return false;
    }
    let mut i: usize = 1;
    while i < chars.len()
        invariant
            1 <= i <= chars@.len(),
            all_digits(chars@.subrange(1, i as int)),
        decreases chars@.len() - i,
    {
        let c = chars[i];
        if !(c >= '0' && c <= '9') {
            assert(chars@.skip(1)[i - 1] == c);
            return false;
        }
        assert forall|k: int| 0 <= k < i + 1 - 1 implies is_digit(
            #[trigger] chars@.subrange(1, i + 1)[k],
        ) by {
            if k < i - 1 {
                assert(chars@.subrange(1, i as int)[k] == chars@[k + 1]);
            }
        }
        i += 1;
    }
    assert(chars@.subrange(1, i as int) =~= chars@.skip(1));
    true
}

/// Reads a piece of source text as an operand under a width tag: text that
/// does not look like an integer is a reference by name, anything else must
/// be a literal that fits the width the tag names.
pub fn type_from_string(t: &str, v: &str) -> (r: Option<Type>)
    ensures
        match operand_of(t@, v@) {
            Some(operand) => r is Some && r->Some_0@ == operand,
            None => r is None,
        },
{
    let chars = chars_of(v);
    if !integer_like(&chars) {
        return Some(Type::Value(v.to_owned()));
    }
    match Width::from_tag(t) {
        Some(width) => {
            assert(chars@.subrange(0, chars@.len() as int) =~= chars@);
            parse_literal(width, &chars, 0, chars.len())
        },
        None => None,
    }
}

} // verus!
