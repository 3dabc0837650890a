use tirc::parser::evaluator::{count_deferred, evaluate, strip_sigil};
use tirc::parser::literal::type_from_string;
use tirc::parser::types::{Type, TypeError, Width};

fn s(text: &str) -> String {
    text.to_string()
}

#[test]
fn same_width_adds() {
    let mut a = Type::I32(5);
    assert_eq!(a.try_add(Type::I32(7)), Ok(()));
    assert_eq!(a, Type::I32(12));
    let mut b = Type::U128(u128::MAX - 1);
    assert_eq!(b.try_add(Type::U128(1)), Ok(()));
    assert_eq!(b, Type::U128(u128::MAX));
    let mut c = Type::I8(-100);
    assert_eq!(c.try_add(Type::I8(-28)), Ok(()));
    assert_eq!(c, Type::I8(-128));
}

#[test]
fn every_width_adds() {
    let pairs = vec![
        (Type::I8(1), Type::I8(2), Type::I8(3)),
        (Type::U8(1), Type::U8(2), Type::U8(3)),
        (Type::I16(1), Type::I16(2), Type::I16(3)),
        (Type::U16(1), Type::U16(2), Type::U16(3)),
        (Type::I32(1), Type::I32(2), Type::I32(3)),
        (Type::U32(1), Type::U32(2), Type::U32(3)),
        (Type::I64(1), Type::I64(2), Type::I64(3)),
        (Type::U64(1), Type::U64(2), Type::U64(3)),
        (Type::I128(1), Type::I128(2), Type::I128(3)),
        (Type::U128(1), Type::U128(2), Type::U128(3)),
    ];
    for (mut a, b, sum) in pairs {
        assert_eq!(a.try_add(b), Ok(()));
        assert_eq!(a, sum);
    }
}

#[test]
fn overflow_is_refused_and_leaves_the_operand() {
    let mut a = Type::U8(250);
    assert_eq!(a.try_add(Type::U8(10)), Err(TypeError::Overflow));
    assert_eq!(a, Type::U8(250));
    let mut b = Type::I8(-128);
    assert_eq!(b.try_add(Type::I8(-1)), Err(TypeError::Overflow));
    assert_eq!(b, Type::I8(-128));
    let mut c = Type::I128(i128::MAX);
    assert_eq!(c.try_add(Type::I128(1)), Err(TypeError::Overflow));
    let mut d = Type::U64(u64::MAX);
    assert_eq!(d.try_add(Type::U64(1)), Err(TypeError::Overflow));
}

#[test]
fn different_widths_do_not_add() {
    let mut a = Type::U8(1);
    assert_eq!(a.try_add(Type::I8(1)), Err(TypeError::MismatchedTypes));
    assert_eq!(a, Type::U8(1));
    let mut b = Type::I32(1);
    assert_eq!(b.try_add(Type::I64(1)), Err(TypeError::MismatchedTypes));
    let mut c = Type::I32(1);
    assert_eq!(c.try_add(Type::Value(s("%a0"))), Err(TypeError::MismatchedTypes));
    let mut d = Type::Value(s("%a0"));
    assert_eq!(d.try_add(Type::Value(s("%a0"))), Err(TypeError::MismatchedTypes));
    assert_eq!(d, Type::Value(s("%a0")));
}

#[test]
fn conversions_to_and_from_integers() {
    assert_eq!(Type::from(5i32), Type::I32(5));
    assert_eq!(Type::from(5u128), Type::U128(5));
    assert_eq!(Type::from(s("%a0")), Type::Value(s("%a0")));
    assert_eq!(Type::from("%a0"), Type::Value(s("%a0")));
    assert_eq!(Type::reference("%t1"), Type::Value(s("%t1")));
    assert_eq!(Type::I16(-4).clone(), Type::I16(-4));
    assert_eq!(Type::Value(s("%t1")).clone(), Type::Value(s("%t1")));
    assert_eq!(i64::try_from(Type::I64(-3)), Ok(-3));
    let narrow: Result<i64, TypeError> = Type::I32(5).try_into();
    assert_eq!(narrow, Err(TypeError::CannotCast(Type::I32(5))));
    assert_eq!(String::try_from(Type::Value(s("x"))), Ok(s("x")));
    assert_eq!(u8::try_from(Type::Value(s("x"))), Err(TypeError::CannotCast(Type::Value(s("x")))));
}

#[test]
fn immediates_are_integers_of_sixty_four_bits() {
    assert_eq!(Type::I32(12).to_immediate(), Ok(12));
    assert_eq!(Type::I8(-1).to_immediate(), Ok(-1));
    assert_eq!(Type::U64(i64::MAX as u64).to_immediate(), Ok(i64::MAX));
    assert_eq!(
        Type::U64(i64::MAX as u64 + 1).to_immediate(),
        Err(TypeError::CannotCast(Type::U64(i64::MAX as u64 + 1)))
    );
    assert_eq!(Type::I128(i64::MIN as i128).to_immediate(), Ok(i64::MIN));
    assert_eq!(
        Type::I128(i64::MIN as i128 - 1).to_immediate(),
        Err(TypeError::CannotCast(Type::I128(i64::MIN as i128 - 1)))
    );
    assert_eq!(
        Type::U128(u128::MAX).to_immediate(),
        Err(TypeError::CannotCast(Type::U128(u128::MAX)))
    );
    assert_eq!(
        Type::Value(s("%a0")).to_immediate(),
        Err(TypeError::CannotCast(Type::Value(s("%a0"))))
    );
}

#[test]
fn width_tags() {
    let tags = [
        ("i8", Width::I8),
        ("u8", Width::U8),
        ("i16", Width::I16),
        ("u16", Width::U16),
        ("i32", Width::I32),
        ("u32", Width::U32),
        ("i64", Width::I64),
        ("u64", Width::U64),
        ("i128", Width::I128),
        ("u128", Width::U128),
    ];
    for (tag, width) in tags {
        assert_eq!(Width::from_tag(tag), Some(width));
        assert_eq!(width.to_tag(), tag);
    }
    assert_eq!(Width::from_tag("i7"), None);
    assert_eq!(Width::from_tag("I8"), None);
    assert_eq!(Width::from_tag(""), None);
    assert_eq!(Width::from_tag("u1288"), None);
}

#[test]
fn zero_of_every_width() {
    assert_eq!(Type::zero(Width::I8), Type::I8(0));
    assert_eq!(Type::zero(Width::U64), Type::U64(0));
    assert_eq!(Type::zero(Width::I128), Type::I128(0));
}

#[test]
fn text_becomes_an_operand() {
    assert_eq!(type_from_string("i32", "0"), Some(Type::I32(0)));
    assert_eq!(type_from_string("i32", "-42"), Some(Type::I32(-42)));
    assert_eq!(type_from_string("u8", "255"), Some(Type::U8(255)));
    assert_eq!(type_from_string("u8", "256"), None);
    assert_eq!(type_from_string("u8", "-1"), None);
    assert_eq!(type_from_string("i8", "-"), None);
    assert_eq!(type_from_string("i9", "1"), None);
    assert_eq!(type_from_string("i32", "%a0"), Some(Type::Value(s("%a0"))));
    assert_eq!(type_from_string("nothing", "%a0"), Some(Type::Value(s("%a0"))));
    assert_eq!(type_from_string("i32", "12x"), Some(Type::Value(s("12x"))));
    assert_eq!(type_from_string("i32", ""), Some(Type::Value(s(""))));
    assert_eq!(type_from_string("i64", "-9223372036854775808"), Some(Type::I64(i64::MIN)));
    assert_eq!(type_from_string("i64", "9223372036854775808"), None);
}

#[test]
fn sum_of_integers_and_registers() {
    let operands =
        vec![Type::I32(5), Type::I32(7), Type::Value(s("%zero")), Type::Value(s("%t0"))];
    assert_eq!(evaluate(Width::I32, &operands), Ok((Type::I32(12), vec![s("t0")])));
    assert_eq!(count_deferred(&operands), 1);
}

#[test]
fn sum_of_nothing_is_zero() {
    assert_eq!(evaluate(Width::U16, &vec![]), Ok((Type::U16(0), vec![])));
}

#[test]
fn sum_that_overflows_is_refused() {
    assert_eq!(
        evaluate(Width::U8, &vec![Type::U8(250), Type::U8(10)]),
        Err(TypeError::Overflow)
    );
}

#[test]
fn sum_of_another_width_is_refused() {
    assert_eq!(
        evaluate(Width::U8, &vec![Type::U8(1), Type::I8(1)]),
        Err(TypeError::MismatchedTypes)
    );
    assert_eq!(evaluate(Width::I64, &vec![Type::I32(1)]), Err(TypeError::MismatchedTypes));
}

#[test]
fn registers_are_deferred_in_order() {
    let operands = vec![
        Type::Value(s("%a1")),
        Type::I64(1),
        Type::Value(s("%ZERO")),
        Type::Value(s("%zero")),
        Type::Value(s("a2")),
    ];
    assert_eq!(
        evaluate(Width::I64, &operands),
        Ok((Type::I64(1), vec![s("a1"), s("ZERO"), s("a2")]))
    );
    assert_eq!(count_deferred(&operands), 3);
}

#[test]
fn sigils_are_stripped() {
    assert_eq!(strip_sigil("%t0"), "t0");
    assert_eq!(strip_sigil("t0"), "t0");
    assert_eq!(strip_sigil("%%a%"), "a");
    assert_eq!(strip_sigil(""), "");
}
