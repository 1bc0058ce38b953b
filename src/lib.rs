//! A stack machine for a small line-oriented bytecode: a loader from text and a
//! worker that executes the decoded program one instruction at a time.
//!
//! The worker never blocks: what only its host can do (print a value, use a
//! channel, start workers) comes back from `ByteCode::step` and
//! `ByteCode::interpret` as an `Effect`.
use vstd::prelude::*;

pub mod instructions;
pub mod lemmas;
pub mod loader;
pub mod machine;
pub mod memory;
pub mod semantics;
pub mod text;

pub use instructions::{DecodeError, Ident, IndexedInstruction, Instruction, IteratorWrapper};
pub use machine::ByteCode;
pub use semantics::{Effect, ExecError, Fault};

verus! {

} // verus!
