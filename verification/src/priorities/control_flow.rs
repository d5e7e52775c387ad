//! Priorities of the control-flow keywords.
use vstd::prelude::*;

verus! {

/// `if`.
pub const IF: i64 = -1;

} // verus!
