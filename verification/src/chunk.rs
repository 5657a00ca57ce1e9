use vstd::prelude::*;

use crate::opcode::OpCode;
use crate::values::Value;

verus! {

/// A chunk is a collection of instruction bytes and the constants they use.
/// It represents one callable function of the bytecode surface. Multi-byte
/// immediates are written in big-endian order.
#[derive(Debug)]
pub struct Chunk {
    pub constants: Vec<Value>,
    pub instructions: Vec<u8>,
}

impl Chunk {
    /// Create an empty chunk.
    pub fn new() -> (r: Chunk)
        ensures
            r.constants@.len() == 0,
            r.instructions@.len() == 0,
    {
        Chunk { constants: Vec::new(), instructions: Vec::new() }
    }

    /// Get the constant at the given index.
    pub fn get_constant(&self, index: usize) -> (r: Option<&Value>)
        ensures
            index < self.constants@.len() ==> (r matches Some(v) && *v
                == self.constants@[index as int]),
            index >= self.constants@.len() ==> r is None,
    {
        if index < self.constants.len() {
            Some(&self.constants[index])
        } else {
            None
        }
    }

    /// The number of instruction bytes written so far: the index the next
    /// byte will be written at.
    pub fn index(&self) -> (r: usize)
        ensures
            r == self.instructions@.len(),
    {
        self.instructions.len()
    }

    /// Add a constant and retrieve its index.
    pub fn add_constant(&mut self, value: Value) -> (r: usize)
        ensures
            final(self).constants@ == old(self).constants@.push(value),
            final(self).instructions@ == old(self).instructions@,
            r == old(self).constants@.len(),
    {
        let index = self.constants.len();
        self.constants.push(value);
        index
    }

    /// Drop the latest instruction byte.
    pub fn pop_instruction(&mut self)
        ensures
            old(self).instructions@.len() > 0 ==> final(self).instructions@ == old(
                self,
            ).instructions@.drop_last(),
            old(self).instructions@.len() == 0 ==> final(self).instructions@ == old(
                self,
            ).instructions@,
            final(self).constants@ == old(self).constants@,
    {
        let _ = self.instructions.pop();
    }

    /// Emit an opcode byte.
    pub fn emit_opcode(&mut self, op_code: OpCode)
        ensures
            final(self).instructions@ == old(self).instructions@.push(op_code.spec_as_byte()),
            final(self).constants@ == old(self).constants@,
    {
        let byte = op_code.as_byte();
        self.instructions.push(byte);
    }

    /// Write one byte.
    pub fn write_u8(&mut self, byte: u8)
        ensures
            final(self).instructions@ == old(self).instructions@.push(byte),
            final(self).constants@ == old(self).constants@,
    {
        self.instructions.push(byte);
    }

    /// Write a boolean as one byte.
    pub fn write_bool(&mut self, value: bool)
        ensures
            final(self).instructions@ == old(self).instructions@.push(
                if value {
                    1u8
                } else {
                    0u8
                },
            ),
            final(self).constants@ == old(self).constants@,
    {
        self.instructions.push(
            if value {
                1
            } else {
                0
            },
        );
    }

    /// Write a sixteen-bit word in big-endian order.
    pub fn write_u16(&mut self, word: u16)
        ensures
            final(self).instructions@ == old(self).instructions@.push((word / 0x100) as u8).push(
                (word % 0x100) as u8,
            ),
            final(self).constants@ == old(self).constants@,
    {
        self.instructions.push((word / 0x100) as u8);
        self.instructions.push((word % 0x100) as u8);
    }

    /// Write raw bytes.
    pub fn write_bytes(&mut self, bytes: &[u8])
        ensures
            final(self).instructions@ == old(self).instructions@ + bytes@,
            final(self).constants@ == old(self).constants@,
    {
        self.instructions.extend_from_slice(bytes);
    }
}

} // verus!
