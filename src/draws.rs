//! Uniform random draws in parts per million.
use vstd::prelude::*;

use crate::PROB_ONE;

verus! {

/// Relies on rand::Rng::gen_range over rand::thread_rng: a value drawn from
/// the half-open range `0..bound`; gen_range panics on an empty range only.
/// (thread_rng itself panics only if the operating system's random source
/// cannot seed it.)
#[verifier::external_body]
fn draw_below(bound: u64) -> (r: u64)
    requires
        bound > 0,
    ensures
        r < bound,
{
    rand::Rng::gen_range(&mut rand::thread_rng(), 0..bound)
}

/// One uniform draw in parts per million, strictly below `PROB_ONE`.
pub fn draw_unit() -> (r: u64)
    ensures
        r < PROB_ONE,
{
    draw_below(PROB_ONE)
}

/// `n` independent uniform draws, each strictly below `PROB_ONE`.
pub fn draw_units(n: usize) -> (r: Vec<u64>)
    ensures
        r@.len() == n,
        forall|i: int| 0 <= i < n ==> #[trigger] r@[i] < PROB_ONE,
{
    let mut r: Vec<u64> = Vec::new();
    let mut i: usize = 0;
    while i < n
        invariant
            i <= n,
            r@.len() == i,
            forall|k: int| 0 <= k < i ==> #[trigger] r@[k] < PROB_ONE,
        decreases n - i,
    {
        r.push(draw_unit());
        i = i + 1;
    }
    r
}

} // verus!
