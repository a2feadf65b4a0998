//! A small stack machine over one double-ended queue of `i64` values.
//!
//! Every instruction names a [`direction::Direction`], the end of the queue it
//! works on, so one shared store carries two stack disciplines at once.
//! Programs are whitespace-separated tokens: `name:` defines a label,
//! `!op` runs `op` against the left end, `op!` against the right end.

pub mod direction;
pub mod error;
pub mod instr;
pub mod laws;
pub mod parse;
pub mod text;
pub mod vm;
