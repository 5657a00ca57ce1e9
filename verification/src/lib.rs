pub mod ast;
pub mod cast;
pub mod chunk;
pub mod environment;
pub mod interpreter;
pub mod opcode;
pub mod ops;
pub mod path;
pub mod render;
pub mod stack;
pub mod store;
pub mod text;
pub mod types;
pub mod u256;
pub mod values;
pub mod xstd;
