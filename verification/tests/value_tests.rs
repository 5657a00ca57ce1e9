use xvm::types::Type;
use xvm::u256::U256;
use xvm::values::{same_value, Value};

#[test]
fn typed_accessors_accept_their_variant_only() {
    let v = Value::U8(7);
    assert_eq!(v.as_u8().unwrap(), 7);
    assert!(v.as_u16().is_err());
    assert!(v.as_bool().is_err());
    assert!(v.as_string().is_err());
    let t = v.get_type().unwrap();
    assert!(matches!(t, Type::U8));

    let s = Value::String(String::from("hi"));
    assert_eq!(s.as_string().unwrap(), "hi");
    assert!(s.as_u8().is_err());
    assert!(matches!(s.get_type().unwrap(), Type::String));
}

#[test]
fn get_type_of_composites() {
    let a = Value::Array(vec![Value::U64(1), Value::U64(2)]);
    match a.get_type().unwrap() {
        Type::Array(inner) => assert!(matches!(*inner, Type::U64)),
        _ => panic!("expected an array type"),
    }
    // the empty array and null have no determined type
    assert!(Value::Array(vec![]).get_type().is_err());
    assert!(Value::Null.get_type().is_err());
    assert!(Value::Optional(None).get_type().is_err());
    let o = Value::Optional(Some(Box::new(Value::U32(5))));
    match o.get_type().unwrap() {
        Type::Optional(inner) => assert!(matches!(*inner, Type::U32)),
        _ => panic!("expected an optional type"),
    }
    let st = Value::Struct(vec![Value::U32(1)], 4);
    match st.get_type().unwrap() {
        Type::Struct(id) => assert_eq!(id, 4),
        _ => panic!("expected a struct type"),
    }
}

#[test]
fn checked_cast_round_trips_a_byte() {
    // an eight-bit value survives the trip through every wider width
    let x = Value::U8(200);
    let up = x.duplicate().checked_cast_to_u16().unwrap();
    assert_eq!(Value::U16(up).checked_cast_to_u8().unwrap(), 200);
    let up = x.duplicate().checked_cast_to_u32().unwrap();
    assert_eq!(Value::U32(up).checked_cast_to_u8().unwrap(), 200);
    let up = x.duplicate().checked_cast_to_u64().unwrap();
    assert_eq!(Value::U64(up).checked_cast_to_u8().unwrap(), 200);
    let up = x.duplicate().checked_cast_to_u128().unwrap();
    assert_eq!(Value::U128(up).checked_cast_to_u8().unwrap(), 200);
    let up = x.duplicate().checked_cast_to_u256().unwrap();
    assert_eq!(Value::U256(up).checked_cast_to_u8().unwrap(), 200);
}

#[test]
fn checked_cast_refuses_a_value_that_does_not_fit() {
    assert!(Value::U16(256).checked_cast_to_u8().is_err());
    assert!(Value::U64(0x1_0000_0000).checked_cast_to_u32().is_err());
    assert!(Value::String(String::from("x")).checked_cast_to_u8().is_err());
}

#[test]
fn truncating_casts_keep_low_bits() {
    assert_eq!(Value::U16(0x1234).cast_to_u8().unwrap(), 0x34);
    assert_eq!(Value::U64(0x1_0000_0002).cast_to_u32().unwrap(), 2);
    assert_eq!(Value::Boolean(true).cast_to_u8().unwrap(), 1);
    assert_eq!(Value::Boolean(false).cast_to_u64().unwrap(), 0);
    let big = U256 { lo: 0x500, hi: 1 };
    assert_eq!(Value::U256(big).cast_to_u8().unwrap(), 0);
    assert_eq!(Value::U256(U256::from_u64(0x1ff)).cast_to_u8().unwrap(), 0xff);
    assert!(Value::Null.cast_to_u8().is_err());
}

#[test]
fn cast_to_string_renders_decimal() {
    assert_eq!(Value::U8(0).cast_to_string().unwrap(), "0");
    assert_eq!(Value::U64(1234567).cast_to_string().unwrap(), "1234567");
    assert_eq!(Value::Boolean(true).cast_to_string().unwrap(), "true");
    let mut v = U256::from_u128(340282366920938463463374607431768211455u128);
    // square the largest 128-bit value via the checked multiplication
    v = v.checked_mul(v).unwrap();
    assert_eq!(
        Value::U256(v).cast_to_string().unwrap(),
        "115792089237316195423570985008687907852589419931798687112530834793049593217025"
    );
    assert!(Value::Null.cast_to_string().is_err());
}

#[test]
fn checked_cast_to_primitive_type_handles_optionals() {
    let r = Value::Null.checked_cast_to_primitive_type(&Type::Optional(Box::new(Type::U8)));
    assert!(matches!(r.unwrap(), Value::Optional(None)));
    let r = Value::U16(7).checked_cast_to_primitive_type(&Type::Optional(Box::new(Type::U8)));
    match r.unwrap() {
        Value::Optional(Some(inner)) => assert!(same_value(&inner, &Value::U8(7))),
        _ => panic!("expected a filled optional"),
    }
    assert!(Value::U16(7).checked_cast_to_primitive_type(&Type::Any).is_err());
}

#[test]
fn increment_and_decrement_work_in_place() {
    let mut v = Value::U8(9);
    v.increment().unwrap();
    assert_eq!(v.as_u8().unwrap(), 10);
    v.decrement().unwrap();
    assert_eq!(v.as_u8().unwrap(), 9);
    let mut s = Value::String(String::from("a"));
    assert!(s.increment().is_err());
}

#[test]
fn structural_equality_is_deep() {
    let a = Value::Array(vec![Value::U64(1), Value::U64(2)]);
    let b = Value::Array(vec![Value::U64(1), Value::U64(2)]);
    let c = Value::Array(vec![Value::U64(1), Value::U64(3)]);
    assert!(same_value(&a, &b));
    assert!(!same_value(&a, &c));
    assert!(!same_value(&a, &Value::U64(1)));
    let s1 = Value::Struct(vec![Value::U32(3), Value::U32(4)], 0);
    let s2 = Value::Struct(vec![Value::U32(3), Value::U32(4)], 0);
    let s3 = Value::Struct(vec![Value::U32(3), Value::U32(4)], 1);
    assert!(same_value(&s1, &s2));
    assert!(!same_value(&s1, &s3));
    assert!(same_value(
        &Value::String(String::from("ab")),
        &Value::String(String::from("ab"))
    ));
}

#[test]
fn take_from_optional_empties_the_cell() {
    let mut v = Value::Optional(Some(Box::new(Value::U64(8))));
    let taken = v.take_from_optional(&Type::U64).unwrap();
    assert!(same_value(&taken, &Value::U64(8)));
    assert!(matches!(v, Value::Optional(None)));
    assert!(v.take_from_optional(&Type::U64).is_err());
}
