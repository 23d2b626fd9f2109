//! A register-based bytecode virtual machine and its assembler: a reader for
//! the line-oriented text format, a two-pass linker that resolves labels into
//! a flat instruction stream, and an interpreter whose every step is stated
//! over an abstract machine.

pub mod isa;
pub mod labels;
pub mod linker;
pub mod num;
pub mod parse;
pub mod pattern;
pub mod vm;
