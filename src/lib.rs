//! A small bytecode stack machine: values, a bounded operand stack, the
//! opcode semantics, the execution engine and the binary program format,
//! with the assembly text reader and the command lines of its tools.

pub mod word;
pub mod stack;
pub mod inst;
pub mod vm;
pub mod loader;
pub mod parser;
pub mod listing;
pub mod cli;
pub mod front;
