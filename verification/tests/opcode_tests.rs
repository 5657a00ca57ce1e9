use xvm::opcode::OpCode;

#[test]
fn every_opcode_survives_the_byte_round_trip() {
    // every defined byte decodes, and decodes back to the same byte
    for b in 0u8..=53 {
        let op = OpCode::from_byte(b).expect("a defined opcode byte");
        assert_eq!(op.as_byte(), b);
        assert_eq!(OpCode::from_byte(op.as_byte()), Some(op));
    }
}

#[test]
fn undefined_bytes_decode_to_nothing() {
    for b in 54u8..=255 {
        assert_eq!(OpCode::from_byte(b), None);
    }
}

#[test]
fn fixed_assignments_hold() {
    assert_eq!(OpCode::Constant.as_byte(), 0);
    assert_eq!(OpCode::Return.as_byte(), 15);
    assert_eq!(OpCode::Add.as_byte(), 22);
    assert_eq!(OpCode::Assign.as_byte(), 39);
    assert_eq!(OpCode::NewRange.as_byte(), 53);
    assert_eq!(OpCode::Pop.as_usize(), 4);
}

#[test]
fn binary_operators_map_to_their_assign_forms() {
    assert_eq!(OpCode::Add.as_assign_operator(), Some(OpCode::AssignAdd));
    assert_eq!(OpCode::Sub.as_assign_operator(), Some(OpCode::AssignSub));
    assert_eq!(OpCode::Shr.as_assign_operator(), Some(OpCode::AssignShr));
    assert_eq!(OpCode::Pop.as_assign_operator(), None);
    assert_eq!(OpCode::Eq.as_assign_operator(), None);
}
