//! Linear crossfade used at a loop seam.
use vstd::prelude::*;
use crate::fixed::{FRAC_ONE, lerp, lerp_spec};

verus! {

/// The Q16 weight of the incoming signal `into` steps into a window of `len` steps.
pub open spec fn fade_weight(into: int, len: int) -> int {
    into * (FRAC_ONE as int) / len
}

/// The blend of `tail` (outgoing) and `head` (incoming) `into` steps into a window of
/// `len` steps: all `tail` at the start, moving linearly toward `head`.
pub open spec fn crossfade_spec(tail: int, head: int, into: int, len: int) -> int {
    lerp_spec(tail, head, fade_weight(into, len))
}

/// Blends `tail` into `head` linearly across a window of `len` steps.
pub fn crossfade(tail: i32, head: i32, into: u64, len: u64) -> (r: i32)
    requires
        into < len,
    ensures
        r == crossfade_spec(tail as int, head as int, into as int, len as int),
        tail <= head ==> tail <= r <= head,
        head <= tail ==> head <= r <= tail,
{
    assert(into * FRAC_ONE < len * FRAC_ONE && into * FRAC_ONE <= u64::MAX * FRAC_ONE)
        by (nonlinear_arith)
        requires
            into < len,
    ;
    let w = ((into as u128) * (FRAC_ONE as u128) / (len as u128)) as u64;
    proof {
        vstd::arithmetic::div_mod::lemma_div_by_multiple(FRAC_ONE as int, len as int);
        assert(FRAC_ONE * len == len * FRAC_ONE) by (nonlinear_arith);
        vstd::arithmetic::div_mod::lemma_div_by_multiple_is_strongly_ordered(
            (into * FRAC_ONE) as int,
            (len * FRAC_ONE) as int,
            FRAC_ONE as int,
            len as int,
        );
    }
    lerp(tail, head, w)
}

} // verus!
