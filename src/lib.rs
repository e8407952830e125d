//! A toolchain for a tape-based, bracket-structured esoteric language: a
//! resolver that turns source text into a jump-resolved instruction sequence,
//! a tape machine that executes it, and an emitter that writes an equivalent
//! C program.
pub mod program;
pub mod text;
pub mod interpreter;
pub mod compiler;
pub mod runs;
pub mod utils;
