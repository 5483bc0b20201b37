//! Extremum reduction over sequences of integers: the mathematical model of
//! the whole-buffer `min`/`max` operations a sample type must provide.

use vstd::prelude::*;

verus! {

/// The least value in a non-empty sequence of integers.
pub open spec fn seq_min(s: Seq<int>) -> int
    recommends
        s.len() > 0,
    decreases s.len(),
{
    if s.len() <= 1 {
        s[0]
    } else if s.last() <= seq_min(s.drop_last()) {
        s.last()
    } else {
        seq_min(s.drop_last())
    }
}

/// The greatest value in a non-empty sequence of integers.
pub open spec fn seq_max(s: Seq<int>) -> int
    recommends
        s.len() > 0,
    decreases s.len(),
{
    if s.len() <= 1 {
        s[0]
    } else if s.last() >= seq_max(s.drop_last()) {
        s.last()
    } else {
        seq_max(s.drop_last())
    }
}

/// The minimum is a lower bound of every element.
pub proof fn lemma_seq_min_le(s: Seq<int>, k: int)
    requires
        0 <= k < s.len(),
    ensures
        seq_min(s) <= s[k],
    decreases s.len(),
{
    if s.len() > 1 && k < s.len() - 1 {
        lemma_seq_min_le(s.drop_last(), k);
    }
}

/// The maximum is an upper bound of every element.
pub proof fn lemma_seq_max_ge(s: Seq<int>, k: int)
    requires
        0 <= k < s.len(),
    ensures
        s[k] <= seq_max(s),
    decreases s.len(),
{
    if s.len() > 1 && k < s.len() - 1 {
        lemma_seq_max_ge(s.drop_last(), k);
    }
}

/// The minimum of a non-empty sequence is one of its elements.
pub proof fn lemma_seq_min_is_element(s: Seq<int>)
    requires
        s.len() > 0,
    ensures
        exists|k: int| 0 <= k < s.len() && s[k] == seq_min(s),
    decreases s.len(),
{
    if s.len() <= 1 {
        assert(s[0] == seq_min(s));
    } else if s.last() <= seq_min(s.drop_last()) {
        assert(s[s.len() - 1] == seq_min(s));
    } else {
        lemma_seq_min_is_element(s.drop_last());
        let k = choose|k: int| 0 <= k < s.drop_last().len() && s.drop_last()[k] == seq_min(
            s.drop_last(),
        );
        assert(s[k] == seq_min(s));
    }
}

/// The maximum of a non-empty sequence is one of its elements.
pub proof fn lemma_seq_max_is_element(s: Seq<int>)
    requires
        s.len() > 0,
    ensures
        exists|k: int| 0 <= k < s.len() && s[k] == seq_max(s),
    decreases s.len(),
{
    if s.len() <= 1 {
        assert(s[0] == seq_max(s));
    } else if s.last() >= seq_max(s.drop_last()) {
        assert(s[s.len() - 1] == seq_max(s));
    } else {
        lemma_seq_max_is_element(s.drop_last());
        let k = choose|k: int| 0 <= k < s.drop_last().len() && s.drop_last()[k] == seq_max(
            s.drop_last(),
        );
        assert(s[k] == seq_max(s));
    }
}

/// A non-empty sequence's minimum never exceeds its maximum.
pub proof fn lemma_seq_min_le_max(s: Seq<int>)
    requires
        s.len() > 0,
    ensures
        seq_min(s) <= seq_max(s),
{
    lemma_seq_min_le(s, 0);
    lemma_seq_max_ge(s, 0);
}

} // verus!
