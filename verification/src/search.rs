//! Exhaustive verification of the rule: enumerate every initial
//! configuration of a given size and ask the oracle about each one.

use vstd::prelude::*;

use crate::config::Configuration;
use crate::config::spec_is_correct;
use crate::config::spec_new;

verus! {

/// Checks the rule on every initial value of a given size and returns a
/// value on which the oracle reports disagreement, or `None` when the rule
/// classifies every configuration of that size correctly.
///
/// Only values in `[0, 2^(size-1))` — top bit clear — are enumerated:
/// complementing a configuration complements both its majority and its
/// eventual uniform outcome, so one member of each complement pair
/// suffices.
pub fn find_counter_example(size: u32) -> (r: Option<u32>)
    requires
        1 <= size <= 31,
    ensures
        match r {
            Some(v) => v < (1u32 << (size - 1) as u32) && !spec_is_correct(spec_new(v, size)),
            None => forall|v: u32|
                v < (1u32 << (size - 1) as u32) ==> spec_is_correct(spec_new(v, size)),
        },
{
    let bound: u32 = 1u32 << (size - 1);
    proof {
        assert(1u32 << ((size - 1) as u32) <= 1u32 << size) by (bit_vector)
            requires
                1 <= size <= 31,
        ;
    }
    let mut k: u32 = 0;
    while k < bound
        invariant
            1 <= size <= 31,
            bound == 1u32 << (size - 1) as u32,
            bound <= 1u32 << size,
            k <= bound,
            forall|v: u32| v < k ==> spec_is_correct(spec_new(v, size)),
        decreases bound - k,
    {
        let mut candidate = Configuration::new(k, size);
        if !candidate.is_correct() {
            return Some(k);
        }
        k = k + 1;
    }
    None
}

} // verus!
