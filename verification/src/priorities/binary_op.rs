//! Priorities of the binary operators. Each operator also takes the slot
//! above its own: the function it returns has the priority one higher.
use vstd::prelude::*;

verus! {

/// `+` and `-`.
pub const ADD_SUB: i64 = -6;

/// `*` and `/`.
pub const MUL_DIV: i64 = -4;

/// Comparisons.
pub const COMPARE: i64 = -8;

} // verus!
