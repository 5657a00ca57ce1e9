use xvm::interpreter::InterpreterError;
use xvm::ops::{
    add_values, bitand_values, bitxor_values, div_values, lt_values, mul_values, rem_values,
    shl_values, shr_values, sub_values,
};
use xvm::u256::U256;
use xvm::values::{same_value, Value};

#[test]
fn adding_and_subtracting_returns_the_first_operand() {
    // the round trip at several widths
    let s = add_values(Value::U8(20), Value::U8(30)).unwrap();
    let back = sub_values(s, Value::U8(30)).unwrap();
    assert!(same_value(&back, &Value::U8(20)));

    let s = add_values(Value::U128(1 << 100), Value::U128(5)).unwrap();
    let back = sub_values(s, Value::U128(5)).unwrap();
    assert!(same_value(&back, &Value::U128(1 << 100)));

    let a = Value::U256(U256 { lo: u128::MAX, hi: 7 });
    let b = Value::U256(U256::from_u64(9));
    let s = add_values(a, b).unwrap();
    let back = sub_values(s, Value::U256(U256::from_u64(9))).unwrap();
    assert!(same_value(&back, &Value::U256(U256 { lo: u128::MAX, hi: 7 })));
}

#[test]
fn overflow_is_reported() {
    assert!(matches!(
        add_values(Value::U8(200), Value::U8(100)),
        Err(InterpreterError::OverflowOccured)
    ));
    assert!(matches!(
        sub_values(Value::U8(1), Value::U8(2)),
        Err(InterpreterError::OverflowOccured)
    ));
    assert!(matches!(
        mul_values(Value::U64(u64::MAX), Value::U64(2)),
        Err(InterpreterError::OverflowOccured)
    ));
    let top = U256 { lo: u128::MAX, hi: u128::MAX };
    assert!(matches!(
        add_values(Value::U256(top), Value::U256(U256::from_u64(1))),
        Err(InterpreterError::OverflowOccured)
    ));
}

#[test]
fn mixed_widths_are_refused() {
    assert!(matches!(
        add_values(Value::U8(1), Value::U16(1)),
        Err(InterpreterError::OperationNotNumberType)
    ));
    assert!(matches!(
        add_values(Value::Boolean(true), Value::Boolean(true)),
        Err(InterpreterError::OperationNotNumberType)
    ));
}

#[test]
fn division_and_remainder() {
    let q = div_values(Value::U64(17), Value::U64(5)).unwrap();
    assert!(same_value(&q, &Value::U64(3)));
    let r = rem_values(Value::U64(17), Value::U64(5)).unwrap();
    assert!(same_value(&r, &Value::U64(2)));
    assert!(matches!(
        div_values(Value::U64(1), Value::U64(0)),
        Err(InterpreterError::DivByZero)
    ));
    assert!(matches!(
        rem_values(Value::U32(1), Value::U32(0)),
        Err(InterpreterError::DivByZero)
    ));
    // the wide width divides exactly as the narrow ones do
    let n = U256::from_u128(1000000000000000000000000000007u128);
    let d = U256::from_u64(13);
    let q = div_values(Value::U256(n), Value::U256(d)).unwrap();
    assert!(same_value(
        &q,
        &Value::U256(U256::from_u128(1000000000000000000000000000007u128 / 13))
    ));
    let r = rem_values(Value::U256(n), Value::U256(d)).unwrap();
    assert!(same_value(
        &r,
        &Value::U256(U256::from_u128(1000000000000000000000000000007u128 % 13))
    ));
}

#[test]
fn u256_multiplication_is_exact() {
    let a = U256::from_u128(u128::MAX);
    let p = a.checked_mul(U256::from_u64(2)).unwrap();
    assert_eq!(p.lo, u128::MAX - 1);
    assert_eq!(p.hi, 1);
    // overflow of the doubled top value
    let top = U256 { lo: 0, hi: 1 << 127 };
    assert!(top.checked_mul(U256::from_u64(2)).is_none());
    assert!(same_value(
        &mul_values(Value::U256(U256::from_u64(0)), Value::U256(top)).unwrap(),
        &Value::U256(U256::from_u64(0))
    ));
}

#[test]
fn shifts_match_their_arithmetic_meaning() {
    let v = shl_values(Value::U8(0b0000_0101), Value::U8(1)).unwrap();
    assert!(same_value(&v, &Value::U8(0b0000_1010)));
    // a left shift keeps the low bits only
    let v = shl_values(Value::U8(0b1000_0001), Value::U8(1)).unwrap();
    assert!(same_value(&v, &Value::U8(0b0000_0010)));
    let v = shr_values(Value::U64(40), Value::U64(2)).unwrap();
    assert!(same_value(&v, &Value::U64(10)));
    assert!(matches!(
        shl_values(Value::U8(1), Value::U8(8)),
        Err(InterpreterError::OverflowOccured)
    ));
    assert!(matches!(
        shl_values(Value::U64(1), Value::U64(0x1_0000_0000)),
        Err(InterpreterError::CastError)
    ));
    let v = shl_values(
        Value::U256(U256::from_u64(1)),
        Value::U256(U256::from_u64(200)),
    )
    .unwrap();
    match v {
        Value::U256(n) => {
            assert_eq!(n.lo, 0);
            assert_eq!(n.hi, 1 << 72);
        },
        _ => panic!("expected a wide number"),
    }
}

#[test]
fn bitwise_operations() {
    assert!(same_value(
        &bitand_values(Value::U8(0b1100), Value::U8(0b1010)).unwrap(),
        &Value::U8(0b1000)
    ));
    assert!(same_value(
        &bitxor_values(Value::U8(0b1100), Value::U8(0b1010)).unwrap(),
        &Value::U8(0b0110)
    ));
    let a = U256 { lo: 0xf0, hi: 0x0f };
    let b = U256 { lo: 0x3c, hi: 0x3c };
    match bitand_values(Value::U256(a), Value::U256(b)).unwrap() {
        Value::U256(n) => {
            assert_eq!(n.lo, 0x30);
            assert_eq!(n.hi, 0x0c);
        },
        _ => panic!("expected a wide number"),
    }
}

#[test]
fn comparisons_answer_on_equal_widths_only() {
    assert!(same_value(
        &lt_values(&Value::U64(3), &Value::U64(4)).unwrap(),
        &Value::Boolean(true)
    ));
    assert!(same_value(
        &lt_values(&Value::U64(4), &Value::U64(4)).unwrap(),
        &Value::Boolean(false)
    ));
    assert!(lt_values(&Value::U64(3), &Value::U32(4)).is_err());
    let small = Value::U256(U256::from_u64(5));
    let big = Value::U256(U256 { lo: 0, hi: 1 });
    assert!(same_value(
        &lt_values(&small, &big).unwrap(),
        &Value::Boolean(true)
    ));
}
