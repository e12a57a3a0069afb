//! What holds of the filter across calls, stated over the models that the
//! operations' own contracts use.
use crate::bloom::{
    and_words, filled, has_bit, lemma_probes, lemma_window_bound, or_words, probes, reports,
    set_bits, window, BITS, WORDS,
};
use vstd::prelude::*;

verus! {

proof fn lemma_or_bit(x: u64, y: u64, k: u64)
    by (bit_vector)
    requires
        k < 64,
    ensures
        (((x | y) >> k) & 1u64 == 1u64) == (((x >> k) & 1u64 == 1u64) || ((y >> k) & 1u64
            == 1u64)),
{
}

/// The set positions of a word-wise OR are those of either store.
pub proof fn lemma_or_set_bits(a: Seq<u64>, b: Seq<u64>)
    requires
        a.len() == WORDS,
        b.len() == WORDS,
    ensures
        set_bits(or_words(a, b)) == set_bits(a) + set_bits(b),
{
    assert forall|pos: int|
        #![trigger set_bits(or_words(a, b)).contains(pos)]
        set_bits(or_words(a, b)).contains(pos) == (set_bits(a) + set_bits(b)).contains(pos) by {
        if 0 <= pos < BITS {
            lemma_or_bit(a[pos / 64], b[pos / 64], (pos % 64) as u64);
        }
    }
    assert(set_bits(or_words(a, b)) =~= set_bits(a) + set_bits(b));
}

/// No false negatives: when digests are added one after another to an empty
/// filter, the final filter reports every one of them. `states[i + 1]` is
/// the store after adding `hs[i]` to `states[i]`, as `insert_hash` describes.
pub proof fn lemma_no_false_negative(hs: Seq<u64>, states: Seq<Seq<u64>>)
    requires
        states.len() == hs.len() + 1,
        states[0] == filled(0),
        forall|i: int|
            0 <= i < hs.len() ==> set_bits(#[trigger] states[i + 1]) == set_bits(states[i])
                + probes(hs[i]),
    ensures
        forall|j: int| 0 <= j < hs.len() ==> reports(states.last(), #[trigger] hs[j]),
{
    assert forall|j: int| 0 <= j < hs.len() implies reports(states.last(), #[trigger] hs[j]) by {
        lemma_added_stays(hs, states, j, hs.len() as int);
    }
}

proof fn lemma_added_stays(hs: Seq<u64>, states: Seq<Seq<u64>>, j: int, i: int)
    requires
        states.len() == hs.len() + 1,
        0 <= j < i <= hs.len(),
        forall|k: int|
            0 <= k < hs.len() ==> set_bits(#[trigger] states[k + 1]) == set_bits(states[k])
                + probes(hs[k]),
    ensures
        probes(hs[j]).subset_of(set_bits(states[i])),
    decreases i - j,
{
    assert(set_bits(states[(i - 1) + 1]) == set_bits(states[i - 1]) + probes(hs[i - 1]));
    if i > j + 1 {
        lemma_added_stays(hs, states, j, i - 1);
    }
}

/// Adding a digest a second time changes nothing that a query can see:
/// `after_twice` is `after_once` with `hash` added again.
pub proof fn lemma_insert_idempotent(
    before: Seq<u64>,
    after_once: Seq<u64>,
    after_twice: Seq<u64>,
    hash: u64,
)
    requires
        set_bits(after_once) == set_bits(before) + probes(hash),
        set_bits(after_twice) == set_bits(after_once) + probes(hash),
    ensures
        set_bits(after_twice) == set_bits(after_once),
        forall|h: u64| reports(after_twice, h) == reports(after_once, h),
{
    assert(set_bits(after_twice) =~= set_bits(after_once));
}

/// A fresh empty filter reports no digest at all.
pub proof fn lemma_empty_reports_nothing(hash: u64)
    ensures
        !reports(filled(0), hash),
{
    let pos = window(hash, 0);
    lemma_window_bound(hash, 0);
    lemma_probes(hash);
    assert(probes(hash).contains(pos));
    let k = (pos % 64) as u64;
    assert((0u64 >> k) & 1u64 == 0u64) by (bit_vector);
    assert(filled(0)[pos / 64] == 0u64);
    assert(!set_bits(filled(0)).contains(pos));
}

/// A fresh full filter reports every digest.
pub proof fn lemma_all_reports_everything(hash: u64)
    ensures
        reports(filled(0xFFFF_FFFF_FFFF_FFFFu64), hash),
{
    let f = filled(0xFFFF_FFFF_FFFF_FFFFu64);
    assert forall|pos: int| probes(hash).contains(pos) implies set_bits(f).contains(pos) by {
        let i = choose|i: int| 0 <= i < 5 && pos == window(hash, i);
        lemma_window_bound(hash, i);
        let k = (pos % 64) as u64;
        assert(k < 64 ==> (0xFFFF_FFFF_FFFF_FFFFu64 >> k) & 1u64 == 1u64) by (bit_vector);
        assert(has_bit(f, pos));
    }
}

/// Union with the empty filter leaves the other operand unchanged, bit for bit.
pub proof fn lemma_union_identity(f: Seq<u64>)
    requires
        f.len() == WORDS,
    ensures
        or_words(filled(0), f) == f,
{
    assert forall|i: int| 0 <= i < WORDS implies #[trigger] or_words(filled(0), f)[i] == f[i] by {
        let x = f[i];
        assert(0u64 | x == x) by (bit_vector);
    }
    assert(or_words(filled(0), f) =~= f);
}

/// Intersection with the full filter leaves the other operand unchanged, bit
/// for bit.
pub proof fn lemma_intersection_identity(f: Seq<u64>)
    requires
        f.len() == WORDS,
    ensures
        and_words(filled(0xFFFF_FFFF_FFFF_FFFFu64), f) == f,
{
    let full = filled(0xFFFF_FFFF_FFFF_FFFFu64);
    assert forall|i: int| 0 <= i < WORDS implies #[trigger] and_words(full, f)[i] == f[i] by {
        let x = f[i];
        assert(0xFFFF_FFFF_FFFF_FFFFu64 & x == x) by (bit_vector);
    }
    assert(and_words(full, f) =~= f);
}

/// Union never loses a value: whatever either operand reported before, the
/// merged filter reports.
pub proof fn lemma_union_monotone(a: Seq<u64>, b: Seq<u64>, hash: u64)
    requires
        a.len() == WORDS,
        b.len() == WORDS,
    ensures
        reports(a, hash) || reports(b, hash) ==> reports(or_words(a, b), hash),
{
    lemma_or_set_bits(a, b);
}

} // verus!
