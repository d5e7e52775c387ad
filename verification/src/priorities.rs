//! The priorities of the built-in functions and keywords.
use vstd::prelude::*;

pub mod binary_op;
pub mod control_flow;

verus! {

/// `let`.
pub const LET: i64 = -9;

/// `set`.
pub const SET: i64 = -10;

/// A function declared without a priority.
pub const FN: i64 = 0;

} // verus!
