//! The free-block bitmap of the filesystem.
//!
//! A bitmap occupies a run of whole blocks on the block device; every bit
//! stands for one allocatable block, set while the block is taken.  The
//! block-cache and device layers live outside this crate: here the device
//! contents are handed in as the plain sequence of 64-bit words that the
//! cache exposes, one block being [`WORDS_PER_BLOCK`] consecutive words, and
//! the bitmap reads and rewrites only the words of its own run.
//!
//! Allocation scans the run block by block and takes the lowest clear bit;
//! deallocation clears a bit that must currently be set.

use vstd::prelude::*;

use vstd::arithmetic::div_mod::lemma_fundamental_div_mod;
use vstd::arithmetic::div_mod::lemma_fundamental_div_mod_converse;
use vstd::arithmetic::div_mod::lemma_multiply_divide_lt;

verus! {

/// Bytes in one device block.
pub const BLOCK_SZ: usize = 512;

/// Bits in one device block.
pub const BLOCK_BITS: usize = BLOCK_SZ * 8;

/// 64-bit words in one device block.
pub const WORDS_PER_BLOCK: usize = BLOCK_SZ / 8;

/// Bits in one word of a bitmap block.
pub const BITS_PER_WORD: usize = 64;

/// Whether bit `j` of word `w` is set.
pub open spec fn word_bit(w: u64, j: int) -> bool {
    ((w >> (j as u64)) & 1) == 1
}

/// Device word that holds bitmap bit `bit` of a bitmap whose run starts at
/// block `start_block`.
pub open spec fn word_index(start_block: int, bit: int) -> int {
    (start_block + bit / (BLOCK_BITS as int)) * (WORDS_PER_BLOCK as int) + (bit % (
    BLOCK_BITS as int)) / (BITS_PER_WORD as int)
}

/// Position of bitmap bit `bit` within its device word.
pub open spec fn shift_index(bit: int) -> int {
    (bit % (BLOCK_BITS as int)) % (BITS_PER_WORD as int)
}

/// Whether bitmap bit `bit` is set in the device image `words`, for a bitmap
/// whose run starts at block `start_block`.
pub open spec fn bitmap_bit(words: Seq<u64>, start_block: int, bit: int) -> bool {
    word_bit(words[word_index(start_block, bit)], shift_index(bit))
}

/// Setting bit `i` raises it and moves no other bit of the word.
proof fn lemma_set_bit(w: u64, i: u64)
    by (bit_vector)
    requires
        i < 64,
    ensures
        ((w | (1u64 << i)) >> i) & 1 == 1,
        forall|j: u64| j < 64 && j != i ==> ((w | (1u64 << i)) >> j) & 1 == (w >> j) & 1,
{
}

/// Clearing bit `i` lowers it and moves no other bit of the word.
proof fn lemma_clear_bit(w: u64, i: u64)
    by (bit_vector)
    requires
        i < 64,
    ensures
        ((w & !(1u64 << i)) >> i) & 1 == 0,
        forall|j: u64| j < 64 && j != i ==> ((w & !(1u64 << i)) >> j) & 1 == (w >> j) & 1,
{
}

/// Where bit `block * BLOCK_BITS + pos` of the bitmap lands on the device:
/// in word `pos / BITS_PER_WORD` of block `start + block`, at position
/// `pos % BITS_PER_WORD`.
proof fn lemma_bit_address(start: int, block: int, pos: int)
    requires
        0 <= block,
        0 <= pos < BLOCK_BITS,
    ensures
        word_index(start, block * (BLOCK_BITS as int) + pos) == (start + block) * (
        WORDS_PER_BLOCK as int) + pos / (BITS_PER_WORD as int),
        shift_index(block * (BLOCK_BITS as int) + pos) == pos % (BITS_PER_WORD as int),
{
    let b = block * (BLOCK_BITS as int) + pos;
    lemma_fundamental_div_mod_converse(b, BLOCK_BITS as int, block, pos);
}

/// Two bit positions that live in the same device word at the same shift are
/// the same position.
proof fn lemma_bit_address_injective(start: int, b1: int, b2: int)
    requires
        0 <= b1,
        0 <= b2,
        word_index(start, b1) == word_index(start, b2),
        shift_index(b1) == shift_index(b2),
    ensures
        b1 == b2,
{
    let blk1 = b1 / (BLOCK_BITS as int);
    let p1 = b1 % (BLOCK_BITS as int);
    let blk2 = b2 / (BLOCK_BITS as int);
    let p2 = b2 % (BLOCK_BITS as int);
    let i1 = p1 / (BITS_PER_WORD as int);
    let i2 = p2 / (BITS_PER_WORD as int);
    let w = WORDS_PER_BLOCK as int;
    lemma_fundamental_div_mod(b1, BLOCK_BITS as int);
    lemma_fundamental_div_mod(b2, BLOCK_BITS as int);
    lemma_fundamental_div_mod(p1, BITS_PER_WORD as int);
    lemma_fundamental_div_mod(p2, BITS_PER_WORD as int);
    assert(0 <= i1 < w);
    assert(0 <= i2 < w);
    assert((start + blk1) * w == start * w + blk1 * w) by (nonlinear_arith);
    assert((start + blk2) * w == start * w + blk2 * w) by (nonlinear_arith);
    assert(blk1 * w + i1 == blk2 * w + i2);
    assert(blk1 == blk2 && i1 == i2) by (nonlinear_arith)
        requires
            blk1 * w + i1 == blk2 * w + i2,
            0 <= i1 < w,
            0 <= i2 < w,
    ;
    assert(p1 == p2);
}

/// A rewrite confined to one word of one block, leaving every bit of that
/// block but `pos` as it was, leaves every bitmap bit other than
/// `block * BLOCK_BITS + pos` as it was.
proof fn lemma_changed_bit(bm: &Bitmap, before: Seq<u64>, after: Seq<u64>, block: int, pos: int, b: int)
    requires
        bm.fits(before),
        after.len() == before.len(),
        0 <= block < bm.blocks,
        0 <= pos < BLOCK_BITS,
        0 <= b < bm.bit_capacity(),
        b != block * (BLOCK_BITS as int) + pos,
        forall|p: int|
            0 <= p < BLOCK_BITS && p != pos ==> #[trigger] block_bit(
                after,
                (bm.start_block_id + block) * (WORDS_PER_BLOCK as int),
                p,
            ) == block_bit(before, (bm.start_block_id + block) * (WORDS_PER_BLOCK as int), p),
        forall|j: int|
            0 <= j < before.len() && j != (bm.start_block_id + block) * (WORDS_PER_BLOCK as int)
                + pos / (BITS_PER_WORD as int) ==> after[j] == before[j],
    ensures
        bitmap_bit(after, bm.start_block_id as int, b) == bitmap_bit(
            before,
            bm.start_block_id as int,
            b,
        ),
{
    let start = bm.start_block_id as int;
    let bb = BLOCK_BITS as int;
    let wpb = WORDS_PER_BLOCK as int;
    let bpw = BITS_PER_WORD as int;
    lemma_fundamental_div_mod(b, bb);
    let blk = b / bb;
    let p = b % bb;
    lemma_bit_address(start, blk, p);
    assert((bm.blocks as int) * bb == bb * (bm.blocks as int)) by (nonlinear_arith);
    lemma_multiply_divide_lt(b, bb, bm.blocks as int);
    assert(blk < bm.blocks);
    let base = (bm.start_block_id + block) * (WORDS_PER_BLOCK as int);
    let widx = base + pos / bpw;
    if blk == block {
        assert(p != pos);
        assert(word_index(start, b) == base + p / bpw);
        assert(shift_index(b) == p % bpw);
        assert(block_bit(after, base, p) == block_bit(before, base, p));
    } else {
        let i1 = p / bpw;
        let i2 = pos / bpw;
        assert(0 <= i1 < wpb);
        assert(0 <= i2 < wpb);
        let w1 = (start + blk) * wpb + i1;
        assert(word_index(start, b) == w1);
        assert(w1 != widx && 0 <= w1 && w1 < (start + bm.blocks) * wpb) by (nonlinear_arith)
            requires
                blk != block,
                0 <= i1 < wpb,
                0 <= i2 < wpb,
                0 <= start,
                0 <= blk < bm.blocks,
                0 <= block,
                w1 == (start + blk) * wpb + i1,
                widx == (start + block) * wpb + i2,
        ;
        assert((start + bm.blocks) * wpb == bm.end_word());
        assert(after[w1] == before[w1]);
    }
}

/// Lowest clear bit of a word, if the word has one.
fn first_zero_bit(w: u64) -> (r: Option<u64>)
    ensures
        match r {
            Some(i) => i < 64 && !word_bit(w, i as int) && forall|j: int|
                0 <= j < i ==> word_bit(w, j),
            None => forall|j: int| 0 <= j < 64 ==> word_bit(w, j),
        },
{
    for i in 0..64u64
        invariant
            forall|j: int| 0 <= j < i ==> word_bit(w, j),
    {
        if (w >> i) & 1 == 0 {
            assert(!word_bit(w, i as int));
            return Some(i);
        }
        proof {
            assert((w >> i) & 1 != 0 ==> (w >> i) & 1 == 1) by (bit_vector);
        }
        assert(word_bit(w, i as int));
    }
    None
}

/// Whether bit `pos` of the block whose first word sits at device index
/// `base` is set.
spec fn block_bit(words: Seq<u64>, base: int, pos: int) -> bool {
    word_bit(words[base + pos / (BITS_PER_WORD as int)], pos % (BITS_PER_WORD as int))
}

/// Take the lowest clear bit of one bitmap block, whose first word sits at
/// device index `base`; answer its position within the block.
#[verifier::loop_isolation(false)]
fn alloc_in_block(words: &mut Vec<u64>, base: usize) -> (r: Option<usize>)
    requires
        base + WORDS_PER_BLOCK <= old(words).len(),
    ensures
        final(words)@.len() == old(words)@.len(),
        match r {
            Some(pos) => {
                let widx = base as int + pos as int / (BITS_PER_WORD as int);
                &&& pos < BLOCK_BITS
                &&& !block_bit(old(words)@, base as int, pos as int)
                &&& forall|p: int| 0 <= p < pos ==> block_bit(old(words)@, base as int, p)
                &&& block_bit(final(words)@, base as int, pos as int)
                &&& forall|p: int|
                    0 <= p < BLOCK_BITS && p != pos ==> block_bit(final(words)@, base as int, p)
                        == block_bit(old(words)@, base as int, p)
                &&& forall|j: int|
                    0 <= j < old(words)@.len() && j != widx ==> final(words)@[j] == old(words)@[j]
            },
            None => {
                &&& final(words)@ == old(words)@
                &&& forall|p: int| 0 <= p < BLOCK_BITS ==> block_bit(old(words)@, base as int, p)
            },
        },
{
    let ghost words0 = words@;
    for wi in 0..WORDS_PER_BLOCK
        invariant
            base + WORDS_PER_BLOCK <= words.len(),
            words@ == words0,
            forall|p: int| 0 <= p < wi * (BITS_PER_WORD as int) ==> block_bit(words0, base as int, p),
    {
        let w = words[base + wi];
        match first_zero_bit(w) {
            Some(inner) => {
                let neww = w | (1u64 << inner);
                words.set(base + wi, neww);
                let pos: usize = wi * BITS_PER_WORD + (inner as usize);
                proof {
                    lemma_set_bit(w, inner);
                    lemma_fundamental_div_mod_converse(
                        pos as int,
                        BITS_PER_WORD as int,
                        wi as int,
                        inner as int,
                    );
                    assert(!block_bit(words0, base as int, pos as int));
                    assert(word_bit(neww, inner as int));
                    assert(block_bit(words@, base as int, pos as int));
                    assert forall|p: int| 0 <= p < pos implies block_bit(
                        words0,
                        base as int,
                        p,
                    ) by {
                        if p < wi * (BITS_PER_WORD as int) {
                            // an earlier word: the loop invariant already covers it
                        } else {
                            // the taken word, below its lowest clear bit
                            lemma_fundamental_div_mod_converse(
                                p,
                                BITS_PER_WORD as int,
                                wi as int,
                                p - wi * (BITS_PER_WORD as int),
                            );
                            assert(word_bit(w, p % (BITS_PER_WORD as int)));
                        }
                    }
                    assert forall|p: int|
                        0 <= p < BLOCK_BITS && p != pos implies block_bit(words@, base as int, p)
                        == block_bit(words0, base as int, p) by {
                        lemma_fundamental_div_mod(p, BITS_PER_WORD as int);
                        let i = p / (BITS_PER_WORD as int);
                        let j = p % (BITS_PER_WORD as int);
                        assert(0 <= j < BITS_PER_WORD);
                        if i == wi as int {
                            assert(j != inner as int);
                            assert(((w | (1u64 << inner)) >> (j as u64)) & 1 == (w >> (j as u64))
                                & 1);
                            assert(word_bit(neww, j) == word_bit(w, j));
                        } else {
                            assert(words@[base as int + i] == words0[base as int + i]);
                        }
                    }
                }
                return Some(pos);
            },
            None => {
                proof {
                    assert forall|p: int|
                        0 <= p < (wi + 1) * (BITS_PER_WORD as int) implies block_bit(
                        words0,
                        base as int,
                        p,
                    ) by {
                        if wi * (BITS_PER_WORD as int) <= p {
                            lemma_fundamental_div_mod_converse(
                                p,
                                BITS_PER_WORD as int,
                                wi as int,
                                p - wi * (BITS_PER_WORD as int),
                            );
                        }
                    }
                }
            },
        }
    }
    None
}

/// Split a bit position into the block it falls in, the word of that block,
/// and the bit of that word.
fn decomposition(bit: usize) -> (r: (usize, usize, usize))
    ensures
        r.0 == bit as int / (BLOCK_BITS as int),
        r.1 == (bit as int % (BLOCK_BITS as int)) / (BITS_PER_WORD as int),
        r.2 == (bit as int % (BLOCK_BITS as int)) % (BITS_PER_WORD as int),
{
    let block_pos = bit / BLOCK_BITS;
    let within = bit % BLOCK_BITS;
    (block_pos, within / BITS_PER_WORD, within % BITS_PER_WORD)
}

/// Free-block bitmap over the run of blocks `start_block_id ..
/// start_block_id + blocks` of the device.
pub struct Bitmap {
    /// First device block of the bitmap's run.
    pub start_block_id: usize,
    /// Number of blocks the run occupies.
    pub blocks: usize,
}

impl Bitmap {
    /// Bits the bitmap holds: one per allocatable block.
    pub open spec fn bit_capacity(self) -> int {
        self.blocks * (BLOCK_BITS as int)
    }

    /// First device word of the bitmap's run.
    pub open spec fn first_word(self) -> int {
        self.start_block_id * (WORDS_PER_BLOCK as int)
    }

    /// One-past-the-last device word of the bitmap's run.
    pub open spec fn end_word(self) -> int {
        (self.start_block_id + self.blocks) * (WORDS_PER_BLOCK as int)
    }

    /// The device image is large enough to hold the bitmap's whole run, and
    /// every bit position the bitmap can answer fits in a machine word.
    pub open spec fn fits(self, words: Seq<u64>) -> bool {
        &&& self.end_word() <= words.len()
        &&& self.bit_capacity() <= usize::MAX
    }

    /// A bitmap over the `blocks` device blocks starting at
    /// `start_block_id`.
    pub fn new(start_block_id: usize, blocks: usize) -> (bm: Bitmap)
        ensures
            bm.start_block_id == start_block_id,
            bm.blocks == blocks,
    {
        Bitmap { start_block_id, blocks }
    }

    /// Maximum number of blocks the bitmap can represent.
    pub fn maximum(&self) -> (m: usize)
        requires
            self.bit_capacity() <= usize::MAX,
        ensures
            m == self.bit_capacity(),
    {
        self.blocks * BLOCK_BITS
    }

    /// Take the lowest clear bit of the bitmap and answer its position, or
    /// answer nothing if every bit is already taken.
    ///
    /// `words` is the device image; only words of the bitmap's own run are
    /// read or rewritten, and on success exactly the returned bit changes.
    #[verifier::loop_isolation(false)]
    pub fn allocate(&self, words: &mut Vec<u64>) -> (r: Option<usize>)
        requires
            self.fits(old(words)@),
        ensures
            final(words)@.len() == old(words)@.len(),
            match r {
                Some(bit) => {
                    let start = self.start_block_id as int;
                    &&& bit < self.bit_capacity()
                    &&& !bitmap_bit(old(words)@, start, bit as int)
                    &&& forall|b: int| 0 <= b < bit ==> bitmap_bit(old(words)@, start, b)
                    &&& bitmap_bit(final(words)@, start, bit as int)
                    &&& forall|b: int|
                        0 <= b < self.bit_capacity() && b != bit ==> bitmap_bit(
                            final(words)@,
                            start,
                            b,
                        ) == bitmap_bit(old(words)@, start, b)
                    &&& forall|j: int|
                        0 <= j < old(words)@.len() && !(self.first_word() <= j < self.end_word())
                            ==> final(words)@[j] == old(words)@[j]
                },
                None => {
                    &&& final(words)@ == old(words)@
                    &&& forall|b: int|
                        0 <= b < self.bit_capacity() ==> bitmap_bit(
                            old(words)@,
                            self.start_block_id as int,
                            b,
                        )
                },
            },
    {
        let ghost words0 = words@;
        let ghost start = self.start_block_id as int;
        let ghost bb = BLOCK_BITS as int;
        let ghost wpb = WORDS_PER_BLOCK as int;
        for block_id in 0..self.blocks
            invariant
                words@ == words0,
                forall|b: int| 0 <= b < block_id * bb ==> bitmap_bit(words0, start, b),
        {
            proof {
                assert(words.len() == words@.len());
                assert((start + block_id + 1) * wpb <= (start + self.blocks) * wpb)
                    by (nonlinear_arith)
                    requires
                        block_id + 1 <= self.blocks,
                        wpb >= 0,
                        0 <= start,
                ;
                assert((start + block_id + 1) * wpb == (start + block_id) * wpb + wpb)
                    by (nonlinear_arith);
                assert(start + block_id <= (start + block_id) * wpb) by (nonlinear_arith)
                    requires
                        0 <= start + block_id,
                        1 <= wpb,
                ;
            }
            let base = (self.start_block_id + block_id) * WORDS_PER_BLOCK;
            match alloc_in_block(words, base) {
                Some(pos) => {
                    proof {
                        assert((block_id + 1) * bb <= self.blocks * bb) by (nonlinear_arith)
                            requires
                                block_id + 1 <= self.blocks,
                                0 <= bb,
                        ;
                        assert((block_id + 1) * bb == block_id * bb + bb) by (nonlinear_arith);
                    }
                    let bit = block_id * BLOCK_BITS + pos;
                    proof {
                        lemma_bit_address(start, block_id as int, pos as int);
                        assert(!bitmap_bit(words0, start, bit as int));
                        assert(bitmap_bit(words@, start, bit as int));
                        assert forall|b: int| 0 <= b < bit implies bitmap_bit(
                            words0,
                            start,
                            b,
                        ) by {
                            if block_id * bb <= b {
                                let p = b - block_id * bb;
                                lemma_bit_address(start, block_id as int, p);
                                assert(block_bit(words0, base as int, p));
                            }
                        }
                        assert forall|b: int|
                            0 <= b < self.bit_capacity() && b != bit implies bitmap_bit(
                            words@,
                            start,
                            b,
                        ) == bitmap_bit(words0, start, b) by {
                            lemma_changed_bit(
                                self,
                                words0,
                                words@,
                                block_id as int,
                                pos as int,
                                b,
                            );
                        }
                    }
                    return Some(bit);
                },
                None => {
                    proof {
                        assert forall|b: int| 0 <= b < (block_id + 1) * bb implies bitmap_bit(
                            words0,
                            start,
                            b,
                        ) by {
                            assert((block_id + 1) * bb == block_id * bb + bb) by (nonlinear_arith);
                            if block_id * bb <= b {
                                let p = b - block_id * bb;
                                lemma_bit_address(start, block_id as int, p);
                                assert(block_bit(words0, base as int, p));
                            }
                        }
                    }
                },
            }
        }
        None
    }

    /// Give bit `bit` back: clear it.  The bit must currently be set, and
    /// exactly that bit changes.
    pub fn dealloc(&self, words: &mut Vec<u64>, bit: usize)
        requires
            self.fits(old(words)@),
            bit < self.bit_capacity(),
            bitmap_bit(old(words)@, self.start_block_id as int, bit as int),
        ensures
            final(words)@.len() == old(words)@.len(),
            !bitmap_bit(final(words)@, self.start_block_id as int, bit as int),
            forall|b: int|
                0 <= b < self.bit_capacity() && b != bit ==> bitmap_bit(
                    final(words)@,
                    self.start_block_id as int,
                    b,
                ) == bitmap_bit(old(words)@, self.start_block_id as int, b),
            forall|j: int|
                0 <= j < old(words)@.len() && j != word_index(
                    self.start_block_id as int,
                    bit as int,
                ) ==> final(words)@[j] == old(words)@[j],
    {
        let ghost words0 = words@;
        let ghost start = self.start_block_id as int;
        let ghost bb = BLOCK_BITS as int;
        let ghost wpb = WORDS_PER_BLOCK as int;
        let ghost bpw = BITS_PER_WORD as int;
        let (block_pos, bits64_pos, inner_pos) = decomposition(bit);
        proof {
            assert(words.len() == words@.len());
            lemma_fundamental_div_mod(bit as int, bb);
            assert((self.blocks as int) * bb == bb * (self.blocks as int)) by (nonlinear_arith);
            lemma_multiply_divide_lt(bit as int, bb, self.blocks as int);
            assert(block_pos < self.blocks);
            assert((start + block_pos + 1) * wpb <= (start + self.blocks) * wpb)
                by (nonlinear_arith)
                requires
                    block_pos + 1 <= self.blocks,
                    wpb >= 0,
            ;
            assert((start + block_pos + 1) * wpb == (start + block_pos) * wpb + wpb)
                by (nonlinear_arith);
            assert(start + block_pos <= (start + block_pos) * wpb) by (nonlinear_arith)
                requires
                    0 <= start + block_pos,
                    1 <= wpb,
            ;
        }
        let idx = (block_pos + self.start_block_id) * WORDS_PER_BLOCK + bits64_pos;
        assert(idx == word_index(start, bit as int));
        let w = words[idx];
        let sh: u64 = inner_pos as u64;
        let neww = w & !(1u64 << sh);
        words.set(idx, neww);
        proof {
            lemma_clear_bit(w, sh);
            assert(!word_bit(neww, sh as int));
            assert(!bitmap_bit(words@, start, bit as int));
            assert forall|b: int|
                0 <= b < self.bit_capacity() && b != bit implies bitmap_bit(words@, start, b)
                == bitmap_bit(words0, start, b) by {
                lemma_fundamental_div_mod(b, bb);
                let blk = b / bb;
                let p = b % bb;
                lemma_bit_address(start, blk, p);
                assert((self.blocks as int) * bb == bb * (self.blocks as int))
                    by (nonlinear_arith);
                lemma_multiply_divide_lt(b, bb, self.blocks as int);
                let w1 = (start + blk) * wpb + p / bpw;
                assert(word_index(start, b) == w1);
                if w1 == idx as int {
                    if shift_index(b) == shift_index(bit as int) {
                        lemma_bit_address_injective(start, b, bit as int);
                        assert(false);
                    } else {
                        let j = shift_index(b);
                        assert(0 <= j < 64);
                        assert(((neww) >> (j as u64)) & 1 == (w >> (j as u64)) & 1);
                    }
                } else {
                    assert(0 <= w1 && w1 < (start + self.blocks) * wpb) by (nonlinear_arith)
                        requires
                            0 <= start,
                            0 <= blk < self.blocks,
                            0 <= p / bpw < wpb,
                            w1 == (start + blk) * wpb + p / bpw,
                    ;
                    assert((start + self.blocks) * wpb == self.end_word());
                    assert(words@[w1] == words0[w1]);
                }
            }
        }
    }
}

} // verus!
