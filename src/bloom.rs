use std::hash::{Hash, Hasher};
use vstd::prelude::*;

verus! {

/// Number of 64-bit words in the store.
pub const WORDS: usize = 128;

/// Number of bits in the store: the whole address space of `get_bit`.
pub const BITS: usize = 8192;

/// Number of bit positions derived from one digest.
pub const PROBES: usize = 5;

/// Whether bit `pos` (counted from bit 0 of word 0) is set in `words`.
pub open spec fn has_bit(words: Seq<u64>, pos: int) -> bool {
    (words[pos / 64] >> ((pos % 64) as u64)) & 1u64 == 1u64
}

/// The positions in `0..BITS` that are set in `words`.
pub open spec fn set_bits(words: Seq<u64>) -> Set<int> {
    Set::new(|pos: int| 0 <= pos < BITS && has_bit(words, pos))
}

/// A store with every word equal to `w`.
pub open spec fn filled(w: u64) -> Seq<u64> {
    Seq::new(WORDS as nat, |i: int| w)
}

/// The word-wise OR of two stores.
pub open spec fn or_words(a: Seq<u64>, b: Seq<u64>) -> Seq<u64> {
    Seq::new(WORDS as nat, |i: int| a[i] | b[i])
}

/// The word-wise AND of two stores.
pub open spec fn and_words(a: Seq<u64>, b: Seq<u64>) -> Seq<u64> {
    Seq::new(WORDS as nat, |i: int| a[i] & b[i])
}

/// The `i`-th 12-bit window of `hash`: bits `12 * i .. 12 * i + 12`.
pub open spec fn window(hash: u64, i: int) -> int {
    ((hash >> ((12 * i) as u64)) & 0xFFFu64) as int
}

/// The bit positions that a digest addresses: its first `PROBES` windows.
pub open spec fn probes(hash: u64) -> Set<int> {
    Set::new(|pos: int| exists|i: int| 0 <= i < PROBES && pos == window(hash, i))
}

/// Whether a filter with store `words` reports a value of digest `hash`:
/// every position that the digest addresses is set.
pub open spec fn reports(words: Seq<u64>, hash: u64) -> bool {
    probes(hash).subset_of(set_bits(words))
}

/// The offsets that a digest addresses, in window order. Each is below 4096.
pub fn offsets(hash: u64) -> (r: [usize; 5])
    ensures
        forall|i: int| 0 <= i < PROBES ==> #[trigger] r@[i] == window(hash, i),
        forall|i: int| 0 <= i < PROBES ==> #[trigger] r@[i] < 4096,
{
    let w0: u64 = hash & 0xFFF;
    let w1: u64 = (hash >> 12) & 0xFFF;
    let w2: u64 = (hash >> 24) & 0xFFF;
    let w3: u64 = (hash >> 36) & 0xFFF;
    let w4: u64 = (hash >> 48) & 0xFFF;
    assert(w0 < 4096 && w1 < 4096 && w2 < 4096 && w3 < 4096 && w4 < 4096) by (bit_vector)
        requires
            w0 == hash & 0xFFF,
            w1 == (hash >> 12) & 0xFFF,
            w2 == (hash >> 24) & 0xFFF,
            w3 == (hash >> 36) & 0xFFF,
            w4 == (hash >> 48) & 0xFFF,
    ;
    assert(hash >> 0u64 == hash) by (bit_vector);
    let r = [w0 as usize, w1 as usize, w2 as usize, w3 as usize, w4 as usize];
    assert(r@[0] == window(hash, 0));
    assert(r@[1] == window(hash, 1));
    assert(r@[2] == window(hash, 2));
    assert(r@[3] == window(hash, 3));
    assert(r@[4] == window(hash, 4));
    r
}

/// The position that an offset addresses: offsets wrap around the store.
pub open spec fn slot(offset: usize) -> int {
    offset as int % BITS as int
}

proof fn lemma_mask_bit(w: u64, b: u64)
    by (bit_vector)
    requires
        b < 64,
    ensures
        ((w & (1u64 << b)) != 0) == ((w >> b) & 1u64 == 1u64),
{
}

proof fn lemma_or_mask_bit(w: u64, b: u64, k: u64)
    by (bit_vector)
    requires
        b < 64,
        k < 64,
    ensures
        (((w | (1u64 << b)) >> k) & 1u64 == 1u64) == (((w >> k) & 1u64 == 1u64) || k == b),
{
}

proof fn lemma_slot_split(offset: usize)
    ensures
        slot(offset) / 64 == (offset / 64) % 128,
        slot(offset) % 64 == offset % 64,
{
    assert((offset % 8192) / 64 == (offset / 64) % 128 && (offset % 8192) % 64 == offset % 64)
        by (bit_vector);
}

/// Every window is below 4096, so it addresses the lower half of the store.
pub proof fn lemma_window_bound(hash: u64, i: int)
    ensures
        0 <= window(hash, i) < 4096,
{
    let s = (12 * i) as u64;
    assert((hash >> s) & 0xFFFu64 < 4096) by (bit_vector);
}

/// The probe set of a digest is the set of its five windows.
pub proof fn lemma_probes(hash: u64)
    ensures
        probes(hash) == set![window(hash, 0), window(hash, 1), window(hash, 2), window(hash, 3), window(hash, 4)],
{
    let s = set![window(hash, 0), window(hash, 1), window(hash, 2), window(hash, 3), window(hash, 4)];
    assert forall|pos: int| probes(hash).contains(pos) implies s.contains(pos) by {
        let i = choose|i: int| 0 <= i < PROBES && pos == window(hash, i);
        assert(i == 0 || i == 1 || i == 2 || i == 3 || i == 4);
    }
    assert forall|pos: int| s.contains(pos) implies probes(hash).contains(pos) by {
        if pos == window(hash, 0) {
            assert(0 <= 0 < PROBES && pos == window(hash, 0));
        } else if pos == window(hash, 1) {
            assert(0 <= 1 < PROBES && pos == window(hash, 1));
        } else if pos == window(hash, 2) {
            assert(0 <= 2 < PROBES && pos == window(hash, 2));
        } else if pos == window(hash, 3) {
            assert(0 <= 3 < PROBES && pos == window(hash, 3));
        } else {
            assert(0 <= 4 < PROBES && pos == window(hash, 4));
        }
    }
    assert(probes(hash) =~= s);
}

/// Relies on fnv::FnvHasher: a hasher in its default state is fed the value
/// through `Hash::hash`, and `finish` hands back its 64-bit FNV-1a state.
/// Nothing is stated of the digest.
#[verifier::external_body]
fn fnv_digest<T: Hash>(value: &T) -> (r: u64) {
    let mut hasher = fnv::FnvHasher::default();
    value.hash(&mut hasher);
    hasher.finish()
}

/// A Bloom filter over a fixed store of `WORDS` words. It is a plain value:
/// copying it copies the whole store.
#[derive(Clone, Copy)]
pub struct Bloom1K([u64; 128]);

impl View for Bloom1K {
    type V = Seq<u64>;

    /// The words of the store, in order.
    closed spec fn view(&self) -> Seq<u64> {
        self.0@
    }
}

impl Bloom1K {
    /// The store always holds exactly `WORDS` words.
    pub proof fn lemma_len(&self)
        ensures
            self@.len() == WORDS,
    {
    }

    /// A filter with no bit set: the identity of `union`.
    pub fn empty() -> (r: Self)
        ensures
            r@ == filled(0),
    {
        Self::default()
    }

    /// A filter with every bit set: the identity of `intersection`.
    pub fn all() -> (r: Self)
        ensures
            r@ == filled(0xFFFF_FFFF_FFFF_FFFFu64),
    {
        let r = Bloom1K([0xFFFF_FFFF_FFFF_FFFFu64; 128]);
        assert(r@ =~= filled(0xFFFF_FFFF_FFFF_FFFFu64));
        r
    }

    /// Merges `rhs` into this filter: each word becomes the OR of the two.
    /// A value that either filter reports, the result reports too.
    pub fn union(&mut self, rhs: Bloom1K)
        ensures
            final(self)@ == or_words(old(self)@, rhs@),
    {
        let ghost before = self@;
        let mut i: usize = 0;
        while i < WORDS
            invariant
                0 <= i <= WORDS,
                self@.len() == WORDS,
                forall|j: int| 0 <= j < i ==> #[trigger] self@[j] == before[j] | rhs@[j],
                forall|j: int| i <= j < WORDS ==> #[trigger] self@[j] == before[j],
            decreases WORDS - i,
        {
            self.0[i] = self.0[i] | rhs.0[i];
            i = i + 1;
        }
        assert(self@ =~= or_words(before, rhs@));
    }

    /// Restricts this filter to `rhs`: each word becomes the AND of the two.
    /// The result may report values that neither filter reported alone,
    /// since positions set by different values can line up.
    pub fn intersection(&mut self, rhs: Bloom1K)
        ensures
            final(self)@ == and_words(old(self)@, rhs@),
    {
        let ghost before = self@;
        let mut i: usize = 0;
        while i < WORDS
            invariant
                0 <= i <= WORDS,
                self@.len() == WORDS,
                forall|j: int| 0 <= j < i ==> #[trigger] self@[j] == before[j] & rhs@[j],
                forall|j: int| i <= j < WORDS ==> #[trigger] self@[j] == before[j],
            decreases WORDS - i,
        {
            self.0[i] = self.0[i] & rhs.0[i];
            i = i + 1;
        }
        assert(self@ =~= and_words(before, rhs@));
    }

    /// Adds `value`: hashes it once and sets the positions that its digest
    /// addresses (see `insert_hash`).
    pub fn insert<T: Hash>(&mut self, value: T)
        ensures
            exists|h: u64| set_bits(final(self)@) == set_bits(old(self)@) + probes(h),
    {
        let h = fnv_digest(&value);
        self.insert_hash(h);
    }

    /// Whether `value` may have been added: hashes it as `insert` does and
    /// tests the positions that its digest addresses (see `contains_hash`).
    /// The filter is left as it was.
    pub fn contains<T: Hash>(&mut self, value: T) -> (r: bool)
        ensures
            final(self)@ == old(self)@,
            exists|h: u64| r == reports(old(self)@, h),
    {
        let h = fnv_digest(&value);
        self.contains_hash(h)
    }

    /// Adds a value of digest `hash`: sets every position that the digest
    /// addresses, and nothing else.
    pub fn insert_hash(&mut self, hash: u64)
        ensures
            set_bits(final(self)@) == set_bits(old(self)@) + probes(hash),
    {
        let ghost before = self@;
        let o = offsets(hash);
        self.set_bit(o[0]);
        self.set_bit(o[1]);
        self.set_bit(o[2]);
        self.set_bit(o[3]);
        self.set_bit(o[4]);
        proof {
            lemma_probes(hash);
            assert(slot(o[0]) == o[0] && slot(o[1]) == o[1] && slot(o[2]) == o[2]);
            assert(slot(o[3]) == o[3] && slot(o[4]) == o[4]);
            assert(set_bits(self@) =~= set_bits(before) + probes(hash));
        }
    }

    /// Whether a value of digest `hash` may have been added: true exactly
    /// when every position that the digest addresses is set.
    pub fn contains_hash(&self, hash: u64) -> (r: bool)
        ensures
            r == reports(self@, hash),
    {
        let o = offsets(hash);
        proof {
            lemma_probes(hash);
            assert(slot(o[0]) == o[0] && slot(o[1]) == o[1] && slot(o[2]) == o[2]);
            assert(slot(o[3]) == o[3] && slot(o[4]) == o[4]);
        }
        let r = self.get_bit(o[0]) && self.get_bit(o[1]) && self.get_bit(o[2]) && self.get_bit(
            o[3],
        ) && self.get_bit(o[4]);
        proof {
            let b = set_bits(self@);
            assert(r == (b.contains(o[0] as int) && b.contains(o[1] as int) && b.contains(
                o[2] as int,
            ) && b.contains(o[3] as int) && b.contains(o[4] as int)));
        }
        r
    }

    /// Whether the bit that `offset` addresses is set. An offset past the
    /// store wraps around rather than failing.
    pub fn get_bit(&self, offset: usize) -> (r: bool)
        ensures
            r == has_bit(self@, slot(offset)),
    {
        let word: usize = (offset / 64) % 128;
        let bit: u64 = (offset % 64) as u64;
        let mask: u64 = 1u64 << bit;
        proof {
            lemma_slot_split(offset);
            lemma_mask_bit(self.0[word as int], bit);
        }
        (self.0[word] & mask) != 0
    }

    /// Sets the bit that `offset` addresses (wrapping as `get_bit` does);
    /// every other bit keeps its value.
    pub fn set_bit(&mut self, offset: usize)
        ensures
            set_bits(final(self)@) == set_bits(old(self)@).insert(slot(offset)),
    {
        let word: usize = (offset / 64) % 128;
        let bit: u64 = (offset % 64) as u64;
        let mask: u64 = 1u64 << bit;
        let ghost before = self@;
        self.0[word] = self.0[word] | mask;
        proof {
            lemma_slot_split(offset);
            assert forall|pos: int|
                #![trigger set_bits(self@).contains(pos)]
                set_bits(self@).contains(pos) == set_bits(before).insert(slot(offset)).contains(
                    pos,
                ) by {
                if 0 <= pos < BITS {
                    if pos / 64 == word as int {
                        lemma_or_mask_bit(before[word as int], bit, (pos % 64) as u64);
                    }
                }
            }
            assert(set_bits(self@) =~= set_bits(before).insert(slot(offset)));
        }
    }
}

impl Default for Bloom1K {
    /// The empty filter.
    fn default() -> (r: Self)
        ensures
            r@ == filled(0),
    {
        let r = Bloom1K([0u64; 128]);
        assert(r@ =~= filled(0));
        r
    }
}

} // verus!
