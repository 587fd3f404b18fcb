//! A single-pass bytecode compiler and stack virtual machine for a small
//! dynamically typed scripting language.
//!
//! Source text is scanned into tokens, a precedence-climbing parser emits
//! bytecode straight into a [`chunk::Chunk`], and [`vm::Vm`] executes the
//! instructions one at a time.  Numbers are IEEE-754 binary64 values carried
//! as bit patterns; rounding arithmetic and the conversion between numbers
//! and decimal text are supplied by the caller.

pub mod chunk;
pub mod compiler;
pub mod disassembler;
pub mod instruction;
pub mod interpreter;
pub mod parse;
pub mod program;
pub mod rules;
pub mod scanner;
pub mod stack;
pub mod text;
pub mod value;
pub mod vm;
