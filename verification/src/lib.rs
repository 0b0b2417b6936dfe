//! A small stack-based bytecode machine with block-structured control flow.
//!
//! One opcode set is interpreted three ways: a direct evaluator over machine
//! integers that branches in constant time through a sidetable, a validator
//! that type-checks the code and constructs that sidetable, and an abstract
//! compiler that cuts the code into continuation blocks and emits per-block
//! straight-line statements driven by a worklist.

pub mod balloon;
pub mod code;
pub mod compile;
pub mod cps;
pub mod eval;
pub mod laws;
pub mod pipeline;
pub mod validate;
