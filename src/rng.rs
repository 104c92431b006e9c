//! The xorshift generator behind the Monte Carlo benchmark.

use vstd::prelude::*;

verus! {

/// One xorshift64 step: shifts of 13 left, 7 right and 17 left, each xored in.
pub open spec fn xorshift_spec(s: u64) -> u64 {
    let a = s ^ ((s << 13u64) as u64);
    let b = a ^ (a >> 7u64);
    b ^ ((b << 17u64) as u64)
}

/// Advances the generator state by one step.
pub fn xorshift_next(state: u64) -> (r: u64)
    ensures
        r == xorshift_spec(state),
{
    let a = state ^ (state << 13u64);
    let b = a ^ (a >> 7u64);
    b ^ (b << 17u64)
}

} // verus!
