use xvm::render::display_value;
use xvm::text::{concat_strings, u128_to_string, u256_to_string};
use xvm::u256::U256;
use xvm::values::Value;

#[test]
fn numbers_render_in_decimal() {
    assert_eq!(u128_to_string(0), "0");
    assert_eq!(u128_to_string(90210), "90210");
    assert_eq!(u256_to_string(U256::from_u64(0)), "0");
    assert_eq!(u256_to_string(U256::from_u64(12345678901234567890)), "12345678901234567890");
    // one above the largest 128-bit value
    assert_eq!(
        u256_to_string(U256 { lo: 0, hi: 1 }),
        "340282366920938463463374607431768211456"
    );
}

#[test]
fn values_display_like_their_source_form() {
    assert_eq!(display_value(&Value::Null), "null");
    assert_eq!(display_value(&Value::Boolean(false)), "false");
    assert_eq!(display_value(&Value::U8(17)), "17");
    assert_eq!(display_value(&Value::String(String::from("hey"))), "hey");
    let a = Value::Array(vec![Value::U64(1), Value::U64(2), Value::U64(3)]);
    assert_eq!(display_value(&a), "[1, 2, 3]");
    let s = Value::Struct(vec![Value::U32(3), Value::U32(4)], 0);
    assert_eq!(display_value(&s), "{3, 4}");
    let o = Value::Optional(Some(Box::new(Value::U8(5))));
    assert_eq!(display_value(&o), "optional<5>");
    assert_eq!(display_value(&Value::Optional(None)), "optional<null>");
    let r = Value::Range(
        Box::new(Value::U16(1)),
        Box::new(Value::U16(9)),
        xvm::types::Type::U16,
    );
    assert_eq!(display_value(&r), "1..9");
}

#[test]
fn concatenation_appends() {
    let a = String::from("foo");
    let b = String::from("bar");
    assert_eq!(concat_strings(&a, &b), "foobar");
}

#[test]
fn u256_division_by_ten() {
    let (q, r) = U256::from_u64(1234).divmod10();
    assert_eq!(q.lo, 123);
    assert_eq!(r, 4);
    let (q, r) = U256::from_u64(7).div_rem(U256::from_u64(3));
    assert_eq!(q.lo, 2);
    assert_eq!(r.lo, 1);
}
