//! Laws of the lexicographic order of byte strings.

use vstd::prelude::*;
use crate::data::Comparison;
use crate::data::datum::{bytes_compare, lemma_mismatch_at, lemma_mismatch_is_first, mismatch};

verus! {

/// Comparing the other way round gives the reverse.
pub proof fn lemma_compare_reverse(a: Seq<u8>, b: Seq<u8>)
    ensures
        bytes_compare(b, a) == bytes_compare(a, b).spec_reverse(),
        mismatch(b, a, 0) == mismatch(a, b, 0),
{
    lemma_mismatch_is_first(a, b, 0);
    lemma_mismatch_at(b, a, 0, mismatch(a, b, 0));
}

/// Two byte strings compare equal exactly when they are the same.
pub proof fn lemma_compare_equal(a: Seq<u8>, b: Seq<u8>)
    ensures
        bytes_compare(a, b) == Comparison::Equal <==> a == b,
{
    lemma_mismatch_is_first(a, b, 0);
    if bytes_compare(a, b) == Comparison::Equal {
        assert(a =~= b);
    }
    if a == b {
        lemma_mismatch_at(a, b, 0, a.len() as int);
    }
}

/// The order is transitive.
pub proof fn lemma_compare_transitive(a: Seq<u8>, b: Seq<u8>, c: Seq<u8>)
    requires
        bytes_compare(a, b) == Comparison::Less,
        bytes_compare(b, c) == Comparison::Less,
    ensures
        bytes_compare(a, c) == Comparison::Less,
{
    lemma_mismatch_is_first(a, b, 0);
    lemma_mismatch_is_first(b, c, 0);
    let k1 = mismatch(a, b, 0);
    let k2 = mismatch(b, c, 0);
    if k1 < k2 {
        lemma_mismatch_at(a, c, 0, k1);
    } else {
        lemma_mismatch_at(a, c, 0, k2);
    }
}

/// Byte strings that share a prefix compare as the rests do.
pub proof fn lemma_compare_common_prefix(p: Seq<u8>, a: Seq<u8>, b: Seq<u8>)
    ensures
        bytes_compare(p + a, p + b) == bytes_compare(a, b),
        mismatch(p + a, p + b, 0) == p.len() + mismatch(a, b, 0),
{
    lemma_mismatch_is_first(a, b, 0);
    let k = mismatch(a, b, 0);
    lemma_mismatch_at(p + a, p + b, 0, p.len() + k);
}

/// Whether two byte strings are the same or differ at a place inside both,
/// so that neither is a proper prefix of the other.
pub open spec fn same_or_apart(a: Seq<u8>, b: Seq<u8>) -> bool {
    a == b || (mismatch(a, b, 0) < a.len() && mismatch(a, b, 0) < b.len())
}

} // verus!
