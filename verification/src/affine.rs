//! The affine rescale from a sample's value range onto a colormap's index
//! range, and the bounds that make the table lookup safe.

use vstd::prelude::*;
use vstd::arithmetic::div_mod::{
    lemma_div_is_ordered, lemma_div_multiples_vanish, lemma_div_of0, lemma_div_pos_is_pos,
};
use vstd::arithmetic::mul::{
    lemma_mul_inequality, lemma_mul_is_commutative, lemma_mul_nonnegative, lemma_mul_upper_bound,
};

verus! {

/// The table index selected for a sample of value `v` when the range
/// `[lo, hi]` is mapped onto the indexes `0 ..= last`: the affine rescale
/// `(v - lo) * last / (hi - lo)`, truncated toward zero.
pub open spec fn table_index_spec(v: int, lo: int, hi: int, last: int) -> int {
    ((v - lo) * last) / (hi - lo)
}

/// Every selected index lies in `0 ..= last`: the lookup never reads at or
/// past the end of a table of `last + 1` entries.
pub proof fn lemma_table_index_in_range(v: int, lo: int, hi: int, last: int)
    requires
        lo <= v <= hi,
        lo < hi,
        0 <= last,
    ensures
        0 <= table_index_spec(v, lo, hi, last) <= last,
{
    let d = hi - lo;
    lemma_mul_nonnegative(v - lo, last);
    lemma_div_pos_is_pos((v - lo) * last, d);
    lemma_mul_inequality(v - lo, d, last);
    lemma_div_is_ordered((v - lo) * last, d * last, d);
    lemma_mul_is_commutative(d, last);
    lemma_div_multiples_vanish(last, d);
}

/// The ends of the value range land exactly on the ends of the table:
/// `lo` selects index 0 and `hi` selects index `last`.
pub proof fn lemma_table_index_at_ends(lo: int, hi: int, last: int)
    requires
        lo < hi,
        0 <= last,
    ensures
        table_index_spec(lo, lo, hi, last) == 0,
        table_index_spec(hi, lo, hi, last) == last,
{
    let d = hi - lo;
    assert((lo - lo) * last == 0);
    lemma_div_of0(d);
    lemma_mul_is_commutative(d, last);
    lemma_div_multiples_vanish(last, d);
}

/// Computes the selected table index for a sample of value `v` inside
/// `[lo, hi]`, widening to 128 bits so the intermediate product cannot
/// overflow.
pub fn scaled_index(v: u64, lo: u64, hi: u64, last: usize) -> (i: usize)
    requires
        lo <= v <= hi,
        lo < hi,
    ensures
        i == table_index_spec(v as int, lo as int, hi as int, last as int),
        i <= last,
{
    proof {
        lemma_mul_upper_bound((v - lo) as int, u64::MAX as int, last as int, u64::MAX as int);
    }
    let num: u128 = ((v - lo) as u128) * (last as u128);
    let den: u128 = (hi - lo) as u128;
    let q: u128 = num / den;
    proof {
        lemma_table_index_in_range(v as int, lo as int, hi as int, last as int);
    }
    q as usize
}

} // verus!
