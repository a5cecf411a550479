//! A packed bit vector recording, one bit per entry, whether that entry
//! passes a single filter criterion.
//!
//! Bit indices at or beyond `size` always read as false and are never
//! mutated; writes beyond `size` are silently ignored.

use vstd::prelude::*;

verus! {

/// One visibility bit per entry, packed eight to a byte.
#[derive(Debug, Clone)]
pub struct BitSet {
    pub size: usize,
    pub chunks: Vec<u8>,
}

impl BitSet {
    /// Number of backing bytes needed for `n` bits.
    pub open spec fn spec_chunk_count(n: int) -> int {
        (n + 7) / 8
    }

    /// The backing store holds exactly one byte per eight bits, rounded up.
    pub open spec fn wf(self) -> bool {
        self.chunks@.len() == Self::spec_chunk_count(self.size as int)
    }

    /// The value of bit `i`; false for every index at or beyond `size`.
    pub open spec fn bit(self, i: int) -> bool {
        &&& 0 <= i < self.size
        &&& (self.chunks@[i / 8] >> ((i % 8) as u8)) & 1u8 == 1u8
    }

    pub fn new() -> (s: Self)
        ensures
            s.wf(),
            s.size == 0,
            forall|i: int| !s.bit(i),
    {
        Self { chunks: Vec::new(), size: 0 }
    }

    /// Changes the capacity to `new_size` bits. Bytes that survive keep their
    /// contents; bytes added by growth are zero-filled. Callers that replace a
    /// mask must rewrite every in-range bit afterwards.
    pub fn resize(&mut self, new_size: usize)
        requires
            old(self).wf(),
        ensures
            final(self).wf(),
            final(self).size == new_size,
            forall|i: int| i >= new_size ==> !final(self).bit(i),
            forall|i: int|
                0 <= i < new_size && i < old(self).chunks@.len() * 8 ==> (final(self).bit(i)
                    <==> (old(self).chunks@[i / 8] >> ((i % 8) as u8)) & 1u8 == 1u8),
            forall|i: int| old(self).chunks@.len() * 8 <= i < new_size ==> !final(self).bit(i),
    {
        let ghost orig = self.chunks@;
        self.size = new_size;
        let target: usize = if new_size <= usize::MAX - 7 {
            (new_size + 7) / 8
        } else {
            // new_size is within 7 of usize::MAX, so its byte count is the
            // same as that of the largest multiple of 8 below it.
            new_size / 8 + 1
        };
        proof {
            assert(target == Self::spec_chunk_count(new_size as int)) by {
                if new_size > usize::MAX - 7 {
                    assert((new_size as int + 7) / 8 == new_size as int / 8 + 1);
                }
            }
        }
        if self.chunks.len() > target {
            self.chunks.truncate(target);
        } else {
            while self.chunks.len() < target
                invariant
                    self.size == new_size,
                    orig.len() <= self.chunks@.len() <= target,
                    forall|j: int|
                        0 <= j < self.chunks@.len() ==> self.chunks@[j] == if j < orig.len() {
                            orig[j]
                        } else {
                            0u8
                        },
                decreases target - self.chunks@.len(),
            {
                self.chunks.push(0u8);
            }
        }
        proof {
            assert forall|i: int| 0 <= i < new_size && i < orig.len() * 8 implies (self.bit(i)
                <==> (orig[i / 8] >> ((i % 8) as u8)) & 1u8 == 1u8) by {
                assert(i / 8 < orig.len()) by (nonlinear_arith)
                    requires
                        0 <= i,
                        i < orig.len() * 8,
                ;
                assert(i / 8 < Self::spec_chunk_count(new_size as int));
                assert(self.chunks@[i / 8] == orig[i / 8]);
            }
            assert forall|i: int| orig.len() * 8 <= i < new_size implies !self.bit(i) by {
                assert(orig.len() <= i / 8) by (nonlinear_arith)
                    requires
                        orig.len() * 8 <= i,
                ;
                assert(i / 8 < Self::spec_chunk_count(new_size as int));
                assert(self.chunks@[i / 8] == 0u8);
                let k = (i % 8) as u8;
                assert((0u8 >> k) & 1u8 == 0u8) by (bit_vector);
            }
        }
    }

    /// Writes bit `bit_index` if it is in range; out-of-range writes are
    /// silently ignored and change nothing.
    pub fn set_bit(&mut self, bit_index: usize, value: bool)
        requires
            old(self).wf(),
        ensures
            final(self).wf(),
            final(self).size == old(self).size,
            bit_index < old(self).size ==> final(self).bit(bit_index as int) == value,
            forall|i: int| i != bit_index ==> final(self).bit(i) == old(self).bit(i),
            bit_index >= old(self).size ==> *final(self) == *old(self),
    {
        if bit_index >= self.size {
            return ;
        }
        let chunk = bit_index / 8;
        let bit = (bit_index % 8) as u8;
        proof {
            assert(bit_index as int / 8 < Self::spec_chunk_count(self.size as int));
        }
        let b = self.chunks[chunk];
        let nb = if value {
            b | (1u8 << bit)
        } else {
            b & !(1u8 << bit)
        };
        self.chunks[chunk] = nb;
        proof {
            let j = bit as u8;
            assert forall|k: u8| k < 8 implies ((nb >> k) & 1u8 == 1u8) == if k == j {
                value
            } else {
                (b >> k) & 1u8 == 1u8
            } by {
                if value {
                    assert(nb == b | (1u8 << j));
                    assert(j < 8 && k < 8 ==> (((b | (1u8 << j)) >> k) & 1u8 == 1u8) == if k == j {
                        true
                    } else {
                        (b >> k) & 1u8 == 1u8
                    }) by (bit_vector);
                } else {
                    assert(nb == b & !(1u8 << j));
                    assert(j < 8 && k < 8 ==> (((b & !(1u8 << j)) >> k) & 1u8 == 1u8) == if k == j {
                        false
                    } else {
                        (b >> k) & 1u8 == 1u8
                    }) by (bit_vector);
                }
            }
            assert forall|i: int| i != bit_index implies self.bit(i) == old(self).bit(i) by {
                if 0 <= i < self.size {
                    if i / 8 == bit_index as int / 8 {
                        assert(((i % 8) as u8) < 8);
                        assert(i % 8 != bit_index as int % 8);
                    }
                }
            }
        }
    }

    /// Clears bit `bit_index`; out-of-range writes are silently ignored.
    pub fn unset_bit(&mut self, bit_index: usize)
        requires
            old(self).wf(),
        ensures
            final(self).wf(),
            final(self).size == old(self).size,
            bit_index < old(self).size ==> !final(self).bit(bit_index as int),
            forall|i: int| i != bit_index ==> final(self).bit(i) == old(self).bit(i),
            bit_index >= old(self).size ==> *final(self) == *old(self),
    {
        self.set_bit(bit_index, false);
    }

    /// Reads bit `bit_index`; false for every index at or beyond `size`.
    pub fn is_bit_set(&self, bit_index: usize) -> (r: bool)
        requires
            self.wf(),
        ensures
            r == self.bit(bit_index as int),
    {
        if bit_index >= self.size {
            return false;
        }
        let chunk = bit_index / 8;
        let bit = (bit_index % 8) as u8;
        proof {
            assert(bit_index as int / 8 < Self::spec_chunk_count(self.size as int));
        }
        (self.chunks[chunk] >> bit) & 1 == 1
    }

    /// No bit at or beyond `size` is ever reported as set.
    pub proof fn lemma_out_of_range_bit_is_false(self, i: int)
        requires
            i >= self.size,
        ensures
            !self.bit(i),
    {
    }
}

} // verus!
