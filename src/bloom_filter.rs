//! A simple bloom filter for `u64` hash values only.
//!
//! Only the least significant byte of a hash is looked at: it selects one bit
//! of a 256-bit vector, held as four 64-bit words.

use vstd::prelude::*;

verus! {

/// Number of 64-bit words needed for 256 bits.
pub const SIZE: usize = 4;

/// Is bit `k` of `w` set?
pub open spec fn bit_set(w: u64, k: u64) -> bool {
    (w >> k) & 1u64 == 1u64
}

/// The byte of a hash that the filter looks at.
pub open spec fn low_byte(h: u64) -> u8 {
    (h & 0xffu64) as u8
}

/// A bloom filter over `u64` hash values: it remembers the low byte of every
/// hash marked into it.
#[derive(Debug, Clone, Copy)]
pub struct BloomFilterU64 {
    words: [u64; 4],
}

proof fn lemma_or_bit(w: u64, k: u64, j: u64)
    requires
        k < 64,
        j < 64,
    ensures
        bit_set(w | (1u64 << k), j) == (bit_set(w, j) || j == k),
{
    assert(((w | (1u64 << k)) >> j) & 1u64 == 1u64 <==> (((w >> j) & 1u64 == 1u64) || j == k))
        by (bit_vector)
        requires
            k < 64,
            j < 64,
    ;
}

proof fn lemma_or_words(a: u64, b: u64, j: u64)
    requires
        j < 64,
    ensures
        bit_set(a | b, j) == (bit_set(a, j) || bit_set(b, j)),
{
    assert(((a | b) >> j) & 1u64 == 1u64 <==> (((a >> j) & 1u64 == 1u64) || ((b >> j) & 1u64
        == 1u64))) by (bit_vector)
        requires
            j < 64,
    ;
}

proof fn lemma_and_mask(w: u64, k: u64)
    requires
        k < 64,
    ensures
        (w & (1u64 << k) == 0) == !bit_set(w, k),
{
    assert((w & (1u64 << k) == 0u64) <==> !((w >> k) & 1u64 == 1u64)) by (bit_vector)
        requires
            k < 64,
    ;
}

proof fn lemma_zero_no_bits(j: u64)
    requires
        j < 64,
    ensures
        !bit_set(0u64, j),
{
    assert(!((0u64 >> j) & 1u64 == 1u64)) by (bit_vector);
}

/// A non-zero word has a set bit.
proof fn lemma_nonzero_has_bit(w: u64)
    requires
        w != 0,
    ensures
        exists|k: u64| k < 64 && #[trigger] bit_set(w, k),
    decreases w,
{
    if w & 1u64 == 1u64 {
        assert((w >> 0u64) & 1u64 == w & 1u64) by (bit_vector);
        assert(bit_set(w, 0u64));
    } else {
        let v = w >> 1u64;
        assert(w & 1u64 != 1u64 && w != 0u64 ==> (w >> 1u64) != 0u64 && (w >> 1u64) < w)
            by (bit_vector);
        lemma_nonzero_has_bit(v);
        let k = choose|k: u64| k < 64 && #[trigger] bit_set(v, k);
        assert(((w >> 1u64) >> k) & 1u64 == 1u64 && k < 64 ==> k < 63) by (bit_vector);
        assert(k < 63 ==> ((w >> 1u64) >> k) & 1u64 == (w >> (k + 1u64)) & 1u64) by (bit_vector);
        assert(bit_set(w, (k + 1) as u64));
    }
}

impl BloomFilterU64 {
    /// Is the bit for byte `b` set?
    pub closed spec fn marked(&self, b: u8) -> bool {
        bit_set(self.words[(b / 64) as int], (b % 64) as u64)
    }

    /// The set of low bytes that were marked.
    pub closed spec fn view(&self) -> Set<u8> {
        Set::new(|b: u8| self.marked(b))
    }

    /// The word and the mask of the bit for a hash value.
    fn hash(value: u64) -> (r: (usize, u64))
        ensures
            r.0 == low_byte(value) / 64,
            r.0 < 4,
            r.1 == 1u64 << (low_byte(value) % 64) as u64,
    {
        let h = value & 0xffu64;
        assert(h < 256) by (bit_vector)
            requires
                h == value & 0xffu64,
        ;
        let offset = (h / 64) as usize;
        let shift = h % 64;
        (offset, 1u64 << shift)
    }

    /// Create an empty filter.
    pub fn new() -> (r: Self)
        ensures
            r.view() == Set::<u8>::empty(),
    {
        let r = BloomFilterU64 { words: [0u64; 4] };
        assert forall|b: u8| !r.marked(b) by {
            lemma_zero_no_bits((b % 64) as u64);
        }
        assert(r.view() =~= Set::<u8>::empty());
        r
    }

    /// Is this filter empty?
    pub fn is_empty(&self) -> (r: bool)
        ensures
            r == (self.view() == Set::<u8>::empty()),
    {
        let mut i: usize = 0;
        while i < SIZE
            invariant
                i <= 4,
                forall|j: int| 0 <= j < i ==> self.words[j] == 0,
            decreases 4 - i,
        {
            if self.words[i] != 0 {
                let w = self.words[i];
                proof {
                    lemma_nonzero_has_bit(w);
                    let k = choose|k: u64| k < 64 && #[trigger] bit_set(w, k);
                    let b = (i * 64 + k) as u8;
                    assert(b / 64 == i && b % 64 == k);
                    assert(self.view().contains(b));
                }
                return false;
            }
            i = i + 1;
        }
        proof {
            assert forall|b: u8| !self.marked(b) by {
                lemma_zero_no_bits((b % 64) as u64);
            }
            assert(self.view() =~= Set::<u8>::empty());
        }
        true
    }

    /// Clear this filter.
    pub fn clear(&mut self)
        ensures
            final(self).view() == Set::<u8>::empty(),
    {
        *self = Self::new();
    }

    /// Mark a hash value into this filter.
    pub fn mark(&mut self, hash: u64)
        ensures
            final(self).view() == old(self).view().insert(low_byte(hash)),
    {
        let (offset, mask) = Self::hash(hash);
        let ghost k = (low_byte(hash) % 64) as u64;
        let ghost before = *self;
        self.words[offset] = self.words[offset] | mask;
        proof {
            assert forall|b: u8| self.marked(b) == (before.marked(b) || b == low_byte(hash)) by {
                assert((b == low_byte(hash)) == (b / 64 == offset && b % 64 == k));
                if b / 64 == offset {
                    lemma_or_bit(before.words[offset as int], k, (b % 64) as u64);
                }
            }
            let after = *self;
            assert forall|b: u8| after.view().contains(b) == before.view().insert(
                low_byte(hash),
            ).contains(b) by {
                assert(after.view().contains(b) == after.marked(b));
                assert(before.view().contains(b) == before.marked(b));
            }
            assert(after.view() =~= before.view().insert(low_byte(hash)));
        }
    }

    /// Is a hash value definitely absent from this filter?
    pub fn is_absent(&self, hash: u64) -> (r: bool)
        ensures
            r == !self.view().contains(low_byte(hash)),
    {
        let (offset, mask) = Self::hash(hash);
        proof {
            lemma_and_mask(self.words[offset as int], (low_byte(hash) % 64) as u64);
        }
        (self.words[offset] & mask) == 0
    }

    /// The union of two filters.
    pub fn add(&self, rhs: &Self) -> (r: Self)
        ensures
            r.view() == self.view().union(rhs.view()),
    {
        let mut r = *self;
        r.add_assign(rhs);
        r
    }

    /// Mark into this filter every hash that is marked in `rhs`.
    pub fn add_assign(&mut self, rhs: &Self)
        ensures
            final(self).view() == old(self).view().union(rhs.view()),
    {
        let ghost before = *self;
        let mut i: usize = 0;
        while i < SIZE
            invariant
                i <= 4,
                forall|j: int| 0 <= j < i ==> self.words[j] == before.words[j] | rhs.words[j],
                forall|j: int| i <= j < 4 ==> self.words[j] == before.words[j],
            decreases 4 - i,
        {
            self.words[i] = self.words[i] | rhs.words[i];
            i = i + 1;
        }
        proof {
            assert forall|b: u8| self.marked(b) == (before.marked(b) || rhs.marked(b)) by {
                lemma_or_words(
                    before.words[(b / 64) as int],
                    rhs.words[(b / 64) as int],
                    (b % 64) as u64,
                );
            }
            assert(self.view() =~= before.view().union(rhs.view()));
        }
    }
}

impl Default for BloomFilterU64 {
    fn default() -> (r: Self)
        ensures
            r.view() == Set::<u8>::empty(),
    {
        Self::new()
    }
}

} // verus!
