use xvm::chunk::Chunk;
use xvm::opcode::OpCode;
use xvm::values::{same_value, Value};

#[test]
fn the_writer_emits_big_endian_immediates() {
    let mut chunk = Chunk::new();
    assert_eq!(chunk.index(), 0);
    chunk.emit_opcode(OpCode::Constant);
    chunk.write_u16(0x1234);
    chunk.emit_opcode(OpCode::Jump);
    chunk.write_u8(9);
    chunk.write_bool(true);
    chunk.write_bytes(&[7, 8]);
    assert_eq!(chunk.instructions, vec![0, 0x12, 0x34, 9, 9, 1, 7, 8]);
    assert_eq!(chunk.index(), 8);
    chunk.pop_instruction();
    assert_eq!(chunk.index(), 7);
}

#[test]
fn constants_are_indexed_in_insertion_order() {
    let mut chunk = Chunk::new();
    assert_eq!(chunk.add_constant(Value::U64(5)), 0);
    assert_eq!(chunk.add_constant(Value::Boolean(true)), 1);
    assert!(same_value(chunk.get_constant(0).unwrap(), &Value::U64(5)));
    assert!(same_value(chunk.get_constant(1).unwrap(), &Value::Boolean(true)));
    assert!(chunk.get_constant(2).is_none());
}
