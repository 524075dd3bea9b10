//! The ring configuration: six packed bit-fields over up to 31 cells, the
//! sequential sweep driver, the convergence check, and the correctness
//! oracle for the density classification rule.

use vstd::prelude::*;

use crate::bits::bit;
use crate::bits::count_ones_below;
use crate::bits::lemma_nonzero_has_bit;
use crate::bits::lemma_not_ones_has_clear_bit;
use crate::bits::lemma_ones_iff_all_bits;
use crate::bits::lemma_with_bit_bound;
use crate::bits::lemma_with_bit_id;
use crate::bits::lemma_zero_iff_no_bit;
use crate::bits::with_bit;
use crate::cell::CellState;
use crate::cell::spec_transition;
use crate::cell::transition;

verus! {

/// A ring of `size` cells, each carrying six boolean attributes stored as
/// bit `i` of six parallel bit-fields. Packing a whole configuration into
/// seven machine words keeps the working set of one simulation inside a CPU
/// cache line, which matters to a search over `2^size` configurations.
#[derive(Clone, Copy, PartialEq, Eq, Structural, Debug)]
pub struct Configuration {
    /// How many cells the ring has; only bits below `size` are meaningful.
    pub size: u32,
    /// Bit `i`: the boolean value of cell `i`.
    pub value: u32,
    /// Bit `i`: whether cell `i` is in the intermediate alphabet.
    pub alphabet: u32,
    /// Bit `i`: whether cell `i` captured its original value.
    pub taken: u32,
    /// Bit `i`: the parity/phase flag of cell `i`.
    pub color: u32,
    /// Bit `i`: whether cell `i`'s memory set contains 0.
    pub mem_0: u32,
    /// Bit `i`: whether cell `i`'s memory set contains 1.
    pub mem_1: u32,
}

/// Well-formedness: the size fits the packed words and no field has a bit
/// set at or beyond `size`.
pub open spec fn wf(c: Configuration) -> bool {
    &&& 1 <= c.size <= 31
    &&& c.value < (1u32 << c.size)
    &&& c.alphabet < (1u32 << c.size)
    &&& c.taken < (1u32 << c.size)
    &&& c.color < (1u32 << c.size)
    &&& c.mem_0 < (1u32 << c.size)
    &&& c.mem_1 < (1u32 << c.size)
}

/// A fresh configuration: caller-supplied `value` and `size`, every other
/// attribute false for every cell.
pub open spec fn spec_new(value: u32, size: u32) -> Configuration {
    Configuration { size, value, alphabet: 0, taken: 0, color: 0, mem_0: 0, mem_1: 0 }
}

/// The six attributes of cell `i`, unpacked.
pub open spec fn cell(c: Configuration, i: u32) -> CellState {
    CellState {
        value: bit(c.value, i),
        intermediate: bit(c.alphabet, i),
        captured: bit(c.taken, i),
        color: bit(c.color, i),
        mem_has_0: bit(c.mem_0, i),
        mem_has_1: bit(c.mem_1, i),
    }
}

/// `c` with cell `i` replaced by `s` and every other cell unchanged.
pub open spec fn with_cell(c: Configuration, i: u32, s: CellState) -> Configuration {
    Configuration {
        size: c.size,
        value: with_bit(c.value, i, s.value),
        alphabet: with_bit(c.alphabet, i, s.intermediate),
        taken: with_bit(c.taken, i, s.captured),
        color: with_bit(c.color, i, s.color),
        mem_0: with_bit(c.mem_0, i, s.mem_has_0),
        mem_1: with_bit(c.mem_1, i, s.mem_has_1),
    }
}

/// One application of the local rule: cell `index` steps to its next
/// attributes, read against left neighbor `left`; no other cell moves.
pub open spec fn local_step(c: Configuration, left: u32, index: u32) -> Configuration {
    with_cell(c, index, spec_transition(cell(c, index), cell(c, left)))
}

/// The left neighbor of cell `k` on a ring of `size` cells: the ring has no
/// distinguished endpoint, so cell 0's left neighbor is cell `size - 1`.
pub open spec fn left_of(size: u32, k: u32) -> u32 {
    if k == 0 {
        (size - 1) as u32
    } else {
        (k - 1) as u32
    }
}

/// The state after the first `n` steps of one sweep of `c`: the rule applied
/// to cells `0, 1, ..., n - 1` in order, each step reading the state the
/// previous steps produced. Cell 0 therefore reads cell `size - 1` as it
/// stood before the sweep, while every later cell reads its left neighbor
/// as already updated by this sweep.
pub open spec fn sweep_prefix(c: Configuration, n: int) -> Configuration
    decreases n,
{
    if n <= 0 {
        c
    } else {
        local_step(sweep_prefix(c, n - 1), left_of(c.size, (n - 1) as u32), (n - 1) as u32)
    }
}

/// One full sweep: the rule applied once to every cell, in index order.
pub open spec fn sweep(c: Configuration) -> Configuration {
    sweep_prefix(c, c.size as int)
}

/// `t` full sweeps of `c`.
pub open spec fn sweeps(c: Configuration, t: nat) -> Configuration
    decreases t,
{
    if t == 0 {
        c
    } else {
        sweep(sweeps(c, (t - 1) as nat))
    }
}

/// Convergence: no cell is intermediate and the boolean value is uniform,
/// either 0 across all cells or 1 across all cells.
pub open spec fn spec_converged(c: Configuration) -> bool {
    &&& forall|i: u32| i < c.size ==> !(#[trigger] cell(c, i)).intermediate
    &&& {
        ||| forall|i: u32| i < c.size ==> !(#[trigger] cell(c, i)).value
        ||| forall|i: u32| i < c.size ==> (#[trigger] cell(c, i)).value
    }
}

/// How many cells of `c` hold the value 1.
pub open spec fn ones_count(c: Configuration) -> int {
    count_ones_below(c.value, c.size as int)
}

/// How many cells of `c` hold the value 0.
pub open spec fn zeros_count(c: Configuration) -> int {
    c.size - ones_count(c)
}

/// An exact tie between 0s and 1s, possible only for even sizes.
pub open spec fn is_tie(c: Configuration) -> bool {
    zeros_count(c) == ones_count(c)
}

/// The majority value of `c`; meaningful only when `c` is not a tie.
pub open spec fn majority_value(c: Configuration) -> bool {
    ones_count(c) > zeros_count(c)
}

/// The oracle's verdict when run from state `c` with `fuel` sweeps still
/// allowed: agreement of the converged uniform value with `majority`, or
/// false if the fuel runs out before convergence.
pub open spec fn oracle_from(c: Configuration, fuel: nat, majority: bool) -> bool
    decreases fuel,
{
    if spec_converged(c) {
        cell(c, 0).value == majority
    } else if fuel == 0 {
        false
    } else {
        oracle_from(sweep(c), (fuel - 1) as nat, majority)
    }
}

/// The oracle's verdict on an initial configuration `c`: true on an exact
/// tie (the rule makes no claim there), otherwise agreement of the eventual
/// uniform value with the initial majority, reached within `size + 1`
/// sweeps; failure to converge in that budget counts as incorrect.
pub open spec fn spec_is_correct(c: Configuration) -> bool {
    if is_tie(c) {
        true
    } else {
        oracle_from(c, (c.size + 1) as nat, majority_value(c))
    }
}

/// Writing a cell's current attributes back leaves the configuration
/// unchanged.
pub proof fn lemma_with_cell_id(c: Configuration, i: u32)
    requires
        i < 32,
    ensures
        with_cell(c, i, cell(c, i)) == c,
{
    lemma_with_bit_id(c.value, i);
    lemma_with_bit_id(c.alphabet, i);
    lemma_with_bit_id(c.taken, i);
    lemma_with_bit_id(c.color, i);
    lemma_with_bit_id(c.mem_0, i);
    lemma_with_bit_id(c.mem_1, i);
}

/// One local step at an index below `size` preserves well-formedness.
pub proof fn lemma_local_step_wf(c: Configuration, left: u32, index: u32)
    requires
        wf(c),
        index < c.size,
    ensures
        wf(local_step(c, left, index)),
{
    let s = spec_transition(cell(c, index), cell(c, left));
    lemma_with_bit_bound(c.value, c.size, index, s.value);
    lemma_with_bit_bound(c.alphabet, c.size, index, s.intermediate);
    lemma_with_bit_bound(c.taken, c.size, index, s.captured);
    lemma_with_bit_bound(c.color, c.size, index, s.color);
    lemma_with_bit_bound(c.mem_0, c.size, index, s.mem_has_0);
    lemma_with_bit_bound(c.mem_1, c.size, index, s.mem_has_1);
}

/// A sweep prefix preserves well-formedness.
pub proof fn lemma_sweep_prefix_wf(c: Configuration, n: int)
    requires
        wf(c),
        0 <= n <= c.size,
    ensures
        wf(sweep_prefix(c, n)),
        sweep_prefix(c, n).size == c.size,
    decreases n,
{
    if n > 0 {
        lemma_sweep_prefix_wf(c, n - 1);
        lemma_local_step_wf(
            sweep_prefix(c, n - 1),
            left_of(c.size, (n - 1) as u32),
            (n - 1) as u32,
        );
    }
}

/// A full sweep preserves well-formedness.
pub proof fn lemma_sweep_wf(c: Configuration)
    requires
        wf(c),
    ensures
        wf(sweep(c)),
        sweep(c).size == c.size,
{
    lemma_sweep_prefix_wf(c, c.size as int);
}

impl Configuration {
    /// Creates a configuration of the given size and value; every other
    /// attribute starts false for every cell. A size outside `1..=31` or a
    /// value with bits set at or beyond `size` is rejected here, by
    /// precondition, rather than let the packed encoding overflow.
    pub fn new(value: u32, size: u32) -> (r: Self)
        requires
            1 <= size <= 31,
            value < (1u32 << size),
        ensures
            r == spec_new(value, size),
            wf(r),
    {
        Configuration { size, value, alphabet: 0, taken: 0, color: 0, mem_0: 0, mem_1: 0 }
    }

    /// O(1) read of the six attributes of cell `index`.
    pub fn read_cell(&self, index: u32) -> (s: CellState)
        requires
            index < 32,
        ensures
            s == cell(*self, index),
    {
        let mask: u32 = 1u32 << index;
        CellState {
            value: self.value & mask != 0,
            intermediate: self.alphabet & mask != 0,
            captured: self.taken & mask != 0,
            color: self.color & mask != 0,
            mem_has_0: self.mem_0 & mask != 0,
            mem_has_1: self.mem_1 & mask != 0,
        }
    }

    /// O(1) write of the six attributes of cell `index`; no other cell and
    /// no other bit changes.
    pub fn write_cell(&mut self, index: u32, s: CellState)
        requires
            index < 32,
        ensures
            *final(self) == with_cell(*old(self), index, s),
    {
        let mask: u32 = 1u32 << index;
        self.value = if s.value {
            self.value | mask
        } else {
            self.value & !mask
        };
        self.alphabet = if s.intermediate {
            self.alphabet | mask
        } else {
            self.alphabet & !mask
        };
        self.taken = if s.captured {
            self.taken | mask
        } else {
            self.taken & !mask
        };
        self.color = if s.color {
            self.color | mask
        } else {
            self.color & !mask
        };
        self.mem_0 = if s.mem_has_0 {
            self.mem_0 | mask
        } else {
            self.mem_0 & !mask
        };
        self.mem_1 = if s.mem_has_1 {
            self.mem_1 | mask
        } else {
            self.mem_1 & !mask
        };
    }

    /// Applies the local rule at `index`, reading `left` as the left
    /// neighbor; being sequential, the rule updates this one cell alone.
    /// The caller supplies `left`, which depends on the ring size.
    pub fn apply_local_function(&mut self, left: u32, index: u32)
        requires
            left < 32,
            index < 32,
        ensures
            *final(self) == local_step(*old(self), left, index),
    {
        let l = self.read_cell(left);
        let me = self.read_cell(index);
        let next = transition(me, l);
        self.write_cell(index, next);
    }

    /// One sweep: applies the local rule to every cell in index order.
    /// Cell 0 reads cell `size - 1` as it stood before this sweep; every
    /// later cell reads its left neighbor as already updated by this sweep.
    pub fn update(&mut self)
        requires
            1 <= old(self).size <= 31,
        ensures
            *final(self) == sweep(*old(self)),
    {
        let ghost c0 = *self;
        self.apply_local_function(self.size - 1, 0);
        proof {
            assert(sweep_prefix(c0, 0) == c0);
            assert(*self == sweep_prefix(c0, 1));
        }
        let mut k: u32 = 1;
        while k < self.size
            invariant
                1 <= k <= c0.size <= 31,
                self.size == c0.size,
                *self == sweep_prefix(c0, k as int),
            decreases c0.size - k,
        {
            self.apply_local_function(k - 1, k);
            proof {
                assert(*self == sweep_prefix(c0, k as int + 1));
            }
            k = k + 1;
        }
    }

    /// True iff the configuration contains no intermediate symbol and all
    /// values are 0 or all are 1.
    pub fn has_converged(&self) -> (r: bool)
        requires
            wf(*self),
        ensures
            r == spec_converged(*self),
    {
        let r = self.alphabet == 0 && (self.value == 0 || self.value == (1u32 << self.size) - 1);
        proof {
            let c = *self;
            let n = c.size;
            if c.alphabet != 0 {
                lemma_nonzero_has_bit(c.alphabet, n);
                let i = choose|i: u32| i < n && bit(c.alphabet, i);
                assert(cell(c, i).intermediate);
                assert(!spec_converged(c));
            } else {
                lemma_zero_iff_no_bit(c.alphabet, n);
                assert forall|i: u32| i < n implies !(#[trigger] cell(c, i)).intermediate by {}
                if c.value == 0 {
                    lemma_zero_iff_no_bit(c.value, n);
                    assert forall|i: u32| i < n implies !(#[trigger] cell(c, i)).value by {}
                    assert(spec_converged(c));
                } else if c.value == (1u32 << n) - 1 {
                    lemma_ones_iff_all_bits(c.value, n);
                    assert forall|i: u32| i < n implies (#[trigger] cell(c, i)).value by {}
                    assert(spec_converged(c));
                } else {
                    lemma_nonzero_has_bit(c.value, n);
                    lemma_not_ones_has_clear_bit(c.value, n);
                    let i = choose|i: u32| i < n && bit(c.value, i);
                    let j = choose|j: u32| j < n && !bit(c.value, j);
                    assert(cell(c, i).value);
                    assert(!cell(c, j).value);
                    assert(!spec_converged(c));
                }
            }
        }
        r
    }

    /// Whether the rule classifies this initial configuration correctly:
    /// counts the 0s and 1s, returns true at once on an exact tie, and
    /// otherwise sweeps until convergence — within a budget of `size + 1`
    /// sweeps — and compares the uniform result with the initial majority.
    /// Exhausting the budget counts as incorrect, never as non-termination.
    pub fn is_correct(&mut self) -> (r: bool)
        requires
            wf(*old(self)),
        ensures
            r == spec_is_correct(*old(self)),
            wf(*final(self)),
            final(self).size == old(self).size,
            is_tie(*old(self)) ==> *final(self) == *old(self),
            exists|t: nat| t <= old(self).size + 1 && *final(self) == sweeps(*old(self), t),
    {
        let ghost c0 = *self;
        let mut count_0: u32 = 0;
        let mut count_1: u32 = 0;
        let mut k: u32 = 0;
        while k < self.size
            invariant
                c0 == *old(self),
                *self == c0,
                wf(c0),
                k <= c0.size,
                count_1 as int == count_ones_below(c0.value, k as int),
                count_0 as int == k - count_1 as int,
                count_1 <= k,
            decreases c0.size - k,
        {
            if self.value & (1u32 << k) == 0 {
                count_0 = count_0 + 1;
            } else {
                count_1 = count_1 + 1;
            }
            k = k + 1;
        }
        assert(count_1 as int == ones_count(c0));
        assert(count_0 as int == zeros_count(c0));

        if count_0 == count_1 {
            assert(*self == sweeps(c0, 0));
            return true;
        }

        let majority: u32 = if count_0 > count_1 {
            0
        } else {
            1
        };
        let ghost maj = majority_value(c0);

        let mut iteration_count: u32 = 0;
        while !self.has_converged()
            invariant
                c0 == *old(self),
                wf(*self),
                wf(c0),
                self.size == c0.size,
                !is_tie(c0),
                maj == majority_value(c0),
                majority == if maj {
                    1u32
                } else {
                    0u32
                },
                iteration_count <= c0.size + 1,
                *self == sweeps(c0, iteration_count as nat),
                oracle_from(c0, (c0.size + 1) as nat, maj) == oracle_from(
                    *self,
                    (c0.size + 1 - iteration_count) as nat,
                    maj,
                ),
            decreases c0.size + 2 - iteration_count,
        {
            if iteration_count > self.size {
                assert(oracle_from(*self, 0, maj) == false);
                return false;
            }
            let ghost before = *self;
            self.update();
            proof {
                lemma_sweep_wf(before);
                assert(*self == sweeps(c0, iteration_count as nat + 1));
            }
            iteration_count = iteration_count + 1;
        }

        let first_bit: u32 = self.value & 1;
        proof {
            let v = self.value;
            assert((v & 1u32 != 0) == bit(v, 0) && v & 1u32 <= 1) by (bit_vector);
            assert(oracle_from(*self, (c0.size + 1 - iteration_count) as nat, maj) == (cell(
                *self,
                0,
            ).value == maj));
        }
        majority == first_bit
    }
}

} // verus!
