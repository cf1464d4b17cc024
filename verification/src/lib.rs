pub mod convert;
pub mod errors;
pub mod handles;
pub mod invoke;
pub mod messages;
pub mod order;
pub mod string_map;

use vstd::prelude::*;

verus! {

/// Liveness probe for the boundary: a call that can never fail.
pub fn test_only_fn_returns_123() -> (r: u32)
    ensures
        r == 123,
{
    123
}

} // verus!

