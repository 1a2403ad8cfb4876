//! The command lines of the assembler, the disassembler and the runner.

pub mod assembler;
pub mod disassembler;
pub mod runner;
