//! An assembler, disassembler and simulator for a small 8-bit accumulator machine.

pub mod text;
pub mod operand;
pub mod instruction;
pub mod parser;
pub mod symbols;
pub mod assembler;
pub mod decoder;
pub mod executor;
pub mod disassembler;
