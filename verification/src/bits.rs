//! Bit-level codec: a ring configuration packs one boolean attribute per cell
//! into one `u32` word, bit `i` holding cell `i`'s flag.

use vstd::prelude::*;

verus! {

/// True iff bit `i` of `w` is set.
pub open spec fn bit(w: u32, i: u32) -> bool {
    w & (1u32 << i) != 0
}

/// `w` with bit `i` set to `b` and every other bit unchanged.
pub open spec fn with_bit(w: u32, i: u32, b: bool) -> u32 {
    if b {
        w | (1u32 << i)
    } else {
        w & !(1u32 << i)
    }
}

/// Writing bit `j` changes that bit alone.
pub proof fn lemma_bit_with_bit(w: u32, j: u32, i: u32, b: bool)
    requires
        i < 32,
        j < 32,
    ensures
        bit(with_bit(w, j, b), i) == if i == j {
            b
        } else {
            bit(w, i)
        },
{
    assert(bit(with_bit(w, j, b), i) == if i == j {
        b
    } else {
        bit(w, i)
    }) by (bit_vector)
        requires
            i < 32,
            j < 32,
    ;
}

/// Writing a bit's current value back leaves the word unchanged.
pub proof fn lemma_with_bit_id(w: u32, i: u32)
    requires
        i < 32,
    ensures
        with_bit(w, i, bit(w, i)) == w,
{
    assert(with_bit(w, i, bit(w, i)) == w) by (bit_vector)
        requires
            i < 32,
    ;
}

/// A word below `1 << n` stays below it when a bit under `n` is written.
pub proof fn lemma_with_bit_bound(w: u32, n: u32, i: u32, b: bool)
    requires
        n <= 31,
        i < n,
        w < (1u32 << n),
    ensures
        with_bit(w, i, b) < (1u32 << n),
{
    assert(with_bit(w, i, b) < (1u32 << n)) by (bit_vector)
        requires
            n <= 31,
            i < n,
            w < (1u32 << n),
    ;
}

/// A nonzero word below `1 << n` has a set bit below `n`.
pub proof fn lemma_nonzero_has_bit(w: u32, n: u32)
    requires
        n <= 31,
        w < (1u32 << n),
        w != 0,
    ensures
        exists|i: u32| i < n && bit(w, i),
    decreases n,
{
    if n == 0 {
        assert(w == 0) by (bit_vector)
            requires
                n == 0,
                w < (1u32 << n),
        ;
    } else if bit(w, (n - 1) as u32) {
        assert(((n - 1) as u32) < n && bit(w, (n - 1) as u32));
    } else {
        assert(w < (1u32 << (n - 1) as u32)) by (bit_vector)
            requires
                1 <= n <= 31,
                w < (1u32 << n),
                !bit(w, (n - 1) as u32),
        ;
        lemma_nonzero_has_bit(w, (n - 1) as u32);
        let i = choose|i: u32| i < (n - 1) as u32 && bit(w, i);
        assert(i < n && bit(w, i));
    }
}

/// A word below `1 << n` is zero exactly when none of its low `n` bits is set.
pub proof fn lemma_zero_iff_no_bit(w: u32, n: u32)
    requires
        n <= 31,
        w < (1u32 << n),
    ensures
        (w == 0) <==> (forall|i: u32| i < n ==> !bit(w, i)),
{
    if w == 0 {
        assert forall|i: u32| i < n implies !bit(w, i) by {
            assert(!bit(w, i)) by (bit_vector)
                requires
                    w == 0,
            ;
        }
    } else {
        lemma_nonzero_has_bit(w, n);
        let i = choose|i: u32| i < n && bit(w, i);
        assert(!(forall|j: u32| j < n ==> !bit(w, j)));
    }
}

/// A word below `1 << n` that is not `(1 << n) - 1` has a clear bit below `n`.
pub proof fn lemma_not_ones_has_clear_bit(w: u32, n: u32)
    requires
        1 <= n <= 31,
        w < (1u32 << n),
        w != (1u32 << n) - 1,
    ensures
        exists|i: u32| i < n && !bit(w, i),
    decreases n,
{
    if !bit(w, (n - 1) as u32) {
        assert(((n - 1) as u32) < n && !bit(w, (n - 1) as u32));
    } else {
        let v = with_bit(w, (n - 1) as u32, false);
        assert(v < (1u32 << (n - 1) as u32) && v != (1u32 << (n - 1) as u32) - 1 && n - 1 >= 1)
            by (bit_vector)
            requires
                1 <= n <= 31,
                w < (1u32 << n),
                w != (1u32 << n) - 1,
                bit(w, (n - 1) as u32),
                v == with_bit(w, (n - 1) as u32, false),
        ;
        lemma_not_ones_has_clear_bit(v, (n - 1) as u32);
        let i = choose|i: u32| i < (n - 1) as u32 && !bit(v, i);
        lemma_bit_with_bit(w, (n - 1) as u32, i, false);
        assert(i < n && !bit(w, i));
    }
}

/// A word below `1 << n` equals `(1 << n) - 1` exactly when all of its low
/// `n` bits are set.
pub proof fn lemma_ones_iff_all_bits(w: u32, n: u32)
    requires
        1 <= n <= 31,
        w < (1u32 << n),
    ensures
        (w == (1u32 << n) - 1) <==> (forall|i: u32| i < n ==> bit(w, i)),
{
    if w == (1u32 << n) - 1 {
        assert forall|i: u32| i < n implies bit(w, i) by {
            assert(bit(w, i)) by (bit_vector)
                requires
                    1 <= n <= 31,
                    i < n,
                    w == (1u32 << n) - 1,
            ;
        }
    } else {
        lemma_not_ones_has_clear_bit(w, n);
        let i = choose|i: u32| i < n && !bit(w, i);
        assert(!(forall|j: u32| j < n ==> bit(w, j)));
    }
}

/// How many of the low `n` bits of `w` are set.
pub open spec fn count_ones_below(w: u32, n: int) -> int
    decreases n,
{
    if n <= 0 {
        0
    } else {
        count_ones_below(w, n - 1) + if bit(w, (n - 1) as u32) {
            1int
        } else {
            0int
        }
    }
}

} // verus!
