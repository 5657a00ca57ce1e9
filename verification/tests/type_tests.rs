use xvm::types::{same_type, Type};

#[test]
fn primitive_byte_encoding_is_bijective() {
    let primitives = [
        (Type::U8, 0u8),
        (Type::U16, 1),
        (Type::U32, 2),
        (Type::U64, 3),
        (Type::U128, 4),
        (Type::U256, 5),
        (Type::Bool, 6),
        (Type::String, 7),
    ];
    for (t, b) in primitives {
        assert_eq!(t.primitive_byte(), Some(b));
        let decoded = Type::primitive_type_from_byte(b).unwrap();
        assert!(same_type(&decoded, &t));
        assert!(t.is_primitive());
    }
    for b in 8u8..=255 {
        assert!(Type::primitive_type_from_byte(b).is_none());
    }
    assert_eq!(Type::Any.primitive_byte(), None);
    assert!(!Type::Array(Box::new(Type::U8)).is_primitive());
}

#[test]
fn compatibility_is_reflexive_and_passes_containers() {
    let samples = [
        Type::U8,
        Type::String,
        Type::Bool,
        Type::Struct(3),
        Type::Array(Box::new(Type::U64)),
        Type::Optional(Box::new(Type::U32)),
        Type::Range(Box::new(Type::U16)),
    ];
    for t in &samples {
        assert!(t.is_compatible_with(t));
    }
    // containers are compatible exactly when their inner types are
    let a = Type::Array(Box::new(Type::U8));
    let b = Type::Array(Box::new(Type::U8));
    let c = Type::Array(Box::new(Type::U16));
    assert!(a.is_compatible_with(&b));
    assert!(!a.is_compatible_with(&c));
    let oa = Type::Optional(Box::new(Type::U8));
    let oc = Type::Optional(Box::new(Type::U16));
    assert!(oa.is_compatible_with(&oa));
    assert!(!oa.is_compatible_with(&oc));
    // wildcards absorb anything
    assert!(Type::U8.is_compatible_with(&Type::Any));
    assert!(Type::U8.is_compatible_with(&Type::T));
    // a plain element is admitted against an array of its type
    assert!(Type::U8.is_compatible_with(&Type::Array(Box::new(Type::U8))));
    assert!(!Type::U8.is_compatible_with(&Type::U16));
}

#[test]
fn castability_tables() {
    assert!(Type::U8.is_castable_to(&Type::U256));
    assert!(Type::U256.is_castable_to(&Type::U8));
    assert!(Type::Bool.is_castable_to(&Type::String));
    assert!(Type::U64.is_castable_to(&Type::String));
    assert!(!Type::String.is_castable_to(&Type::U8));
    assert!(Type::U8.is_castable_to(&Type::Bool));
    assert!(Type::U256.is_castable_to(&Type::Bool));
    assert!(!Type::Bool.is_castable_to(&Type::Bool));

    assert!(Type::U8.is_castable_to_no_loss(&Type::U16));
    assert!(Type::U128.is_castable_to_no_loss(&Type::U256));
    assert!(!Type::U16.is_castable_to_no_loss(&Type::U8));
    assert!(!Type::Bool.is_castable_to_no_loss(&Type::U8));
    assert!(!Type::U8.is_castable_to_no_loss(&Type::String));
}

#[test]
fn predicates_and_inner_types() {
    assert!(Type::Array(Box::new(Type::U8)).is_iterable());
    assert!(Type::Range(Box::new(Type::U8)).is_iterable());
    assert!(!Type::U8.is_iterable());
    assert!(Type::Array(Box::new(Type::U8)).is_array());
    assert!(Type::Struct(0).is_struct());
    assert!(Type::U128.is_number());
    assert!(!Type::Bool.is_number());
    assert!(Type::Optional(Box::new(Type::U8)).is_optional());
    assert!(Type::Optional(Box::new(Type::U8)).allow_null());
    assert!(!Type::U8.allow_null());
    assert!(Type::Array(Box::new(Type::U8)).has_inner_type());
    assert!(!Type::U8.has_inner_type());
    assert!(same_type(
        Type::Array(Box::new(Type::U16)).get_inner_type(),
        &Type::U16
    ));
    assert!(same_type(Type::U16.get_inner_type(), &Type::U16));
}
