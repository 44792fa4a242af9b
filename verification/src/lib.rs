//! A model of a minimal 4-bit central processing unit.
//!
//! The crate has two tightly coupled halves: an assembler that turns
//! whitespace-delimited textual mnemonics into an 8-bit-per-instruction
//! byte program, and an execution engine that fetches, decodes, and
//! executes that byte program against the architectural state (two 4-bit
//! registers, a carry flag, a 4-bit program counter, and one input/output
//! port).

pub mod compiler;
pub mod emulator;
pub mod error;
pub mod op;
pub mod parser;
pub mod port;
pub mod register;
pub mod rom;
pub mod token;
