//! A superoptimizer for a single TIS-100 execution node.
//!
//! The library models one basic execution node (accumulator, backup register,
//! program counter, two FIFO ports), executes small assembly-style programs on
//! it, judges a candidate program against an expected output sequence, and
//! searches a complexity-ordered enumeration of programs for the first one
//! that satisfies the input/output contract.

#[allow(non_snake_case)]
pub mod TIS_100;

pub mod check;
pub mod optimizer;
