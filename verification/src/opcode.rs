use vstd::prelude::*;

verus! {

/// The instruction set of the stack machine. The byte assigned to each
/// opcode is part of the wire contract and must never change.
#[derive(Clone, Copy, Debug, PartialEq, Eq, Structural)]
pub enum OpCode {
    // push a constant from the pool
    Constant,
    // push a register
    MemoryLoad,
    // pop into a register
    MemorySet,
    // pop a composite, push one of its sub-values
    SubLoad,
    // pop a value
    Pop,
    // push a copy of the top value
    Copy,
    // push a copy of the value at a given depth
    Copy2,
    // swap the top two values
    Swap,
    // swap two values by depth
    Swap2,
    // jump to an address
    Jump,
    // pop a condition, jump when it is false
    JumpIfFalse,
    // pop an iterable, push its length
    IterableLength,
    // turn the popped iterable into an iterator
    IteratorBegin,
    // advance the iterator, jump out when it is exhausted
    IteratorNext,
    // dispose of the iterator
    IteratorEnd,
    // stop processing the chunk
    Return,
    // pop an index and an array, push the element
    ArrayCall,
    // pop a value, push it cast
    Cast,
    // call a user function chunk
    InvokeChunk,
    // call a native function
    SysCall,
    // pop the elements into a new array
    NewArray,
    // pop the fields into a new struct
    NewStruct,
    Add,
    Sub,
    Mul,
    Div,
    Mod,
    Pow,
    And,
    Or,
    Xor,
    Shl,
    Shr,
    Eq,
    // boolean negation
    Neg,
    Gt,
    Lt,
    Gte,
    Lte,
    Assign,
    AssignAdd,
    AssignSub,
    AssignMul,
    AssignDiv,
    AssignMod,
    AssignPow,
    AssignAnd,
    AssignOr,
    AssignXor,
    AssignShl,
    AssignShr,
    // increment in place
    Inc,
    // decrement in place
    Dec,
    // pop the endpoints into a new range
    NewRange,
}

impl OpCode {
    /// Mathematical mirror of `as_byte`.
    pub open spec fn spec_as_byte(self) -> u8 {
        match self {
            OpCode::Constant => 0,
            OpCode::MemoryLoad => 1,
            OpCode::MemorySet => 2,
            OpCode::SubLoad => 3,
            OpCode::Pop => 4,
            OpCode::Copy => 5,
            OpCode::Copy2 => 6,
            OpCode::Swap => 7,
            OpCode::Swap2 => 8,
            OpCode::Jump => 9,
            OpCode::JumpIfFalse => 10,
            OpCode::IterableLength => 11,
            OpCode::IteratorBegin => 12,
            OpCode::IteratorNext => 13,
            OpCode::IteratorEnd => 14,
            OpCode::Return => 15,
            OpCode::ArrayCall => 16,
            OpCode::Cast => 17,
            OpCode::InvokeChunk => 18,
            OpCode::SysCall => 19,
            OpCode::NewArray => 20,
            OpCode::NewStruct => 21,
            OpCode::Add => 22,
            OpCode::Sub => 23,
            OpCode::Mul => 24,
            OpCode::Div => 25,
            OpCode::Mod => 26,
            OpCode::Pow => 27,
            OpCode::And => 28,
            OpCode::Or => 29,
            OpCode::Xor => 30,
            OpCode::Shl => 31,
            OpCode::Shr => 32,
            OpCode::Eq => 33,
            OpCode::Neg => 34,
            OpCode::Gt => 35,
            OpCode::Lt => 36,
            OpCode::Gte => 37,
            OpCode::Lte => 38,
            OpCode::Assign => 39,
            OpCode::AssignAdd => 40,
            OpCode::AssignSub => 41,
            OpCode::AssignMul => 42,
            OpCode::AssignDiv => 43,
            OpCode::AssignMod => 44,
            OpCode::AssignPow => 45,
            OpCode::AssignAnd => 46,
            OpCode::AssignOr => 47,
            OpCode::AssignXor => 48,
            OpCode::AssignShl => 49,
            OpCode::AssignShr => 50,
            OpCode::Inc => 51,
            OpCode::Dec => 52,
            OpCode::NewRange => 53,
        }
    }

    /// Mathematical mirror of `from_byte`.
    pub open spec fn spec_from_byte(byte: u8) -> Option<OpCode> {
        match byte {
            0u8 => Some(OpCode::Constant),
            1u8 => Some(OpCode::MemoryLoad),
            2u8 => Some(OpCode::MemorySet),
            3u8 => Some(OpCode::SubLoad),
            4u8 => Some(OpCode::Pop),
            5u8 => Some(OpCode::Copy),
            6u8 => Some(OpCode::Copy2),
            7u8 => Some(OpCode::Swap),
            8u8 => Some(OpCode::Swap2),
            9u8 => Some(OpCode::Jump),
            10u8 => Some(OpCode::JumpIfFalse),
            11u8 => Some(OpCode::IterableLength),
            12u8 => Some(OpCode::IteratorBegin),
            13u8 => Some(OpCode::IteratorNext),
            14u8 => Some(OpCode::IteratorEnd),
            15u8 => Some(OpCode::Return),
            16u8 => Some(OpCode::ArrayCall),
            17u8 => Some(OpCode::Cast),
            18u8 => Some(OpCode::InvokeChunk),
            19u8 => Some(OpCode::SysCall),
            20u8 => Some(OpCode::NewArray),
            21u8 => Some(OpCode::NewStruct),
            22u8 => Some(OpCode::Add),
            23u8 => Some(OpCode::Sub),
            24u8 => Some(OpCode::Mul),
            25u8 => Some(OpCode::Div),
            26u8 => Some(OpCode::Mod),
            27u8 => Some(OpCode::Pow),
            28u8 => Some(OpCode::And),
            29u8 => Some(OpCode::Or),
            30u8 => Some(OpCode::Xor),
            31u8 => Some(OpCode::Shl),
            32u8 => Some(OpCode::Shr),
            33u8 => Some(OpCode::Eq),
            34u8 => Some(OpCode::Neg),
            35u8 => Some(OpCode::Gt),
            36u8 => Some(OpCode::Lt),
            37u8 => Some(OpCode::Gte),
            38u8 => Some(OpCode::Lte),
            39u8 => Some(OpCode::Assign),
            40u8 => Some(OpCode::AssignAdd),
            41u8 => Some(OpCode::AssignSub),
            42u8 => Some(OpCode::AssignMul),
            43u8 => Some(OpCode::AssignDiv),
            44u8 => Some(OpCode::AssignMod),
            45u8 => Some(OpCode::AssignPow),
            46u8 => Some(OpCode::AssignAnd),
            47u8 => Some(OpCode::AssignOr),
            48u8 => Some(OpCode::AssignXor),
            49u8 => Some(OpCode::AssignShl),
            50u8 => Some(OpCode::AssignShr),
            51u8 => Some(OpCode::Inc),
            52u8 => Some(OpCode::Dec),
            53u8 => Some(OpCode::NewRange),
            _ => None,
        }
    }

    /// Convert the opcode to a byte.
    pub fn as_byte(&self) -> (r: u8)
        ensures
            r == self.spec_as_byte(),
    {
        match self {
            OpCode::Constant => 0,
            OpCode::MemoryLoad => 1,
            OpCode::MemorySet => 2,
            OpCode::SubLoad => 3,
            OpCode::Pop => 4,
            OpCode::Copy => 5,
            OpCode::Copy2 => 6,
            OpCode::Swap => 7,
            OpCode::Swap2 => 8,
            OpCode::Jump => 9,
            OpCode::JumpIfFalse => 10,
            OpCode::IterableLength => 11,
            OpCode::IteratorBegin => 12,
            OpCode::IteratorNext => 13,
            OpCode::IteratorEnd => 14,
            OpCode::Return => 15,
            OpCode::ArrayCall => 16,
            OpCode::Cast => 17,
            OpCode::InvokeChunk => 18,
            OpCode::SysCall => 19,
            OpCode::NewArray => 20,
            OpCode::NewStruct => 21,
            OpCode::Add => 22,
            OpCode::Sub => 23,
            OpCode::Mul => 24,
            OpCode::Div => 25,
            OpCode::Mod => 26,
            OpCode::Pow => 27,
            OpCode::And => 28,
            OpCode::Or => 29,
            OpCode::Xor => 30,
            OpCode::Shl => 31,
            OpCode::Shr => 32,
            OpCode::Eq => 33,
            OpCode::Neg => 34,
            OpCode::Gt => 35,
            OpCode::Lt => 36,
            OpCode::Gte => 37,
            OpCode::Lte => 38,
            OpCode::Assign => 39,
            OpCode::AssignAdd => 40,
            OpCode::AssignSub => 41,
            OpCode::AssignMul => 42,
            OpCode::AssignDiv => 43,
            OpCode::AssignMod => 44,
            OpCode::AssignPow => 45,
            OpCode::AssignAnd => 46,
            OpCode::AssignOr => 47,
            OpCode::AssignXor => 48,
            OpCode::AssignShl => 49,
            OpCode::AssignShr => 50,
            OpCode::Inc => 51,
            OpCode::Dec => 52,
            OpCode::NewRange => 53,
        }
    }

    /// Convert the opcode to a machine word.
    pub fn as_usize(&self) -> (r: usize)
        ensures
            r == self.spec_as_byte() as usize,
    {
        self.as_byte() as usize
    }

    /// Convert a byte to an opcode; bytes outside the table decode to nothing.
    pub fn from_byte(byte: u8) -> (r: Option<OpCode>)
        ensures
            r == OpCode::spec_from_byte(byte),
    {
        match byte {
            0 => Some(OpCode::Constant),
            1 => Some(OpCode::MemoryLoad),
            2 => Some(OpCode::MemorySet),
            3 => Some(OpCode::SubLoad),
            4 => Some(OpCode::Pop),
            5 => Some(OpCode::Copy),
            6 => Some(OpCode::Copy2),
            7 => Some(OpCode::Swap),
            8 => Some(OpCode::Swap2),
            9 => Some(OpCode::Jump),
            10 => Some(OpCode::JumpIfFalse),
            11 => Some(OpCode::IterableLength),
            12 => Some(OpCode::IteratorBegin),
            13 => Some(OpCode::IteratorNext),
            14 => Some(OpCode::IteratorEnd),
            15 => Some(OpCode::Return),
            16 => Some(OpCode::ArrayCall),
            17 => Some(OpCode::Cast),
            18 => Some(OpCode::InvokeChunk),
            19 => Some(OpCode::SysCall),
            20 => Some(OpCode::NewArray),
            21 => Some(OpCode::NewStruct),
            22 => Some(OpCode::Add),
            23 => Some(OpCode::Sub),
            24 => Some(OpCode::Mul),
            25 => Some(OpCode::Div),
            26 => Some(OpCode::Mod),
            27 => Some(OpCode::Pow),
            28 => Some(OpCode::And),
            29 => Some(OpCode::Or),
            30 => Some(OpCode::Xor),
            31 => Some(OpCode::Shl),
            32 => Some(OpCode::Shr),
            33 => Some(OpCode::Eq),
            34 => Some(OpCode::Neg),
            35 => Some(OpCode::Gt),
            36 => Some(OpCode::Lt),
            37 => Some(OpCode::Gte),
            38 => Some(OpCode::Lte),
            39 => Some(OpCode::Assign),
            40 => Some(OpCode::AssignAdd),
            41 => Some(OpCode::AssignSub),
            42 => Some(OpCode::AssignMul),
            43 => Some(OpCode::AssignDiv),
            44 => Some(OpCode::AssignMod),
            45 => Some(OpCode::AssignPow),
            46 => Some(OpCode::AssignAnd),
            47 => Some(OpCode::AssignOr),
            48 => Some(OpCode::AssignXor),
            49 => Some(OpCode::AssignShl),
            50 => Some(OpCode::AssignShr),
            51 => Some(OpCode::Inc),
            52 => Some(OpCode::Dec),
            53 => Some(OpCode::NewRange),
            _ => None,
        }
    }

    /// Mathematical mirror of `as_assign_operator`.
    pub open spec fn spec_as_assign_operator(self) -> Option<OpCode> {
        match self {
            OpCode::Add => Some(OpCode::AssignAdd),
            OpCode::Sub => Some(OpCode::AssignSub),
            OpCode::Mul => Some(OpCode::AssignMul),
            OpCode::Div => Some(OpCode::AssignDiv),
            OpCode::Mod => Some(OpCode::AssignMod),
            OpCode::Pow => Some(OpCode::AssignPow),
            OpCode::And => Some(OpCode::AssignAnd),
            OpCode::Or => Some(OpCode::AssignOr),
            OpCode::Xor => Some(OpCode::AssignXor),
            OpCode::Shl => Some(OpCode::AssignShl),
            OpCode::Shr => Some(OpCode::AssignShr),
            _ => None,
        }
    }

    /// The compound-assignment opcode that belongs to a binary operator.
    pub fn as_assign_operator(self) -> (r: Option<OpCode>)
        ensures
            r == self.spec_as_assign_operator(),
    {
        match self {
            OpCode::Add => Some(OpCode::AssignAdd),
            OpCode::Sub => Some(OpCode::AssignSub),
            OpCode::Mul => Some(OpCode::AssignMul),
            OpCode::Div => Some(OpCode::AssignDiv),
            OpCode::Mod => Some(OpCode::AssignMod),
            OpCode::Pow => Some(OpCode::AssignPow),
            OpCode::And => Some(OpCode::AssignAnd),
            OpCode::Or => Some(OpCode::AssignOr),
            OpCode::Xor => Some(OpCode::AssignXor),
            OpCode::Shl => Some(OpCode::AssignShl),
            OpCode::Shr => Some(OpCode::AssignShr),
            _ => None,
        }
    }
}

/// Every opcode survives the byte round trip, and every byte outside the
/// table decodes to nothing.
pub proof fn lemma_opcode_byte_roundtrip(op: OpCode, b: u8)
    ensures
        OpCode::spec_from_byte(op.spec_as_byte()) == Some(op),
        OpCode::spec_from_byte(b) matches Some(decoded) ==> decoded.spec_as_byte() == b,
        b > 53 ==> OpCode::spec_from_byte(b) is None,
{
}

} // verus!
