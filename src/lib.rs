//! The execution core of a small dynamically typed language: the bytecode
//! chunk and its decoder, a disassembler, a stack machine that runs chunks,
//! and the scanner that turns source text into tokens.
pub mod chunk;
pub mod disassembler;
pub mod error;
pub mod opcodes;
pub mod scanner;
pub mod text;
pub mod token;
pub mod value;
pub mod vm;
