//! The streaming absorber: a stateful context that buffers an arbitrary byte
//! stream into 8-byte words and feeds them through the lane state, carrying a
//! partial word across calls. The digest a context finalizes to depends only
//! on the seed and on the concatenation of everything absorbed, never on how
//! the caller partitioned the stream into calls.

use vstd::prelude::*;
use vstd::bytes::u64_from_le_bytes;
use vstd::slice::slice_subrange;
use vstd::arithmetic::div_mod::{
    lemma_add_mod_noop, lemma_fundamental_div_mod, lemma_mod_bound, lemma_mod_multiples_basic,
    lemma_mod_multiples_vanish, lemma_small_mod,
};
use crate::lanes::{Lanes, absorb_word, finish_lanes, init_lanes, spec_init_lanes};
use crate::words::{
    lemma_fold_words_push, lemma_unfolded_is_tail, lemma_words_of_ignore_tail,
    lemma_words_of_take_step, spec_fold_words, spec_hash, spec_lanes_of, spec_pad8, spec_pow2_64,
    spec_tail_of, spec_words_of,
};

verus! {

/// A streaming hashing context: the lane state, a holding buffer for a
/// partial input word, and the running total of bytes absorbed. The ghost
/// fields record the seed and the full absorbed stream, which together
/// determine the digest.
pub struct BlitzState {
    lanes: Lanes,
    buffer: Vec<u8>,
    total_len: u64,
    seed: Ghost<u64>,
    absorbed: Ghost<Seq<u8>>,
}

impl BlitzState {
    /// The seed this context was created with.
    pub closed spec fn seed(&self) -> u64 {
        self.seed@
    }

    /// The bytes absorbed since creation, in order of arrival.
    pub closed spec fn absorbed(&self) -> Seq<u8> {
        self.absorbed@
    }

    /// Internal invariant: the holding buffer carries exactly the trailing
    /// partial word of the absorbed stream, the running total is the absorbed
    /// length reduced modulo 2^64, and the lanes have folded in every
    /// complete word of the stream.
    pub closed spec fn wf(&self) -> bool {
        &&& self.buffer@.len() == self.absorbed@.len() % 8
        &&& self.buffer@ == spec_tail_of(self.absorbed@)
        &&& self.total_len as int == self.absorbed@.len() as int % spec_pow2_64()
        &&& self.lanes == spec_lanes_of(self.seed@, self.absorbed@)
    }

    /// Creates a context for `seed`: lanes initialized, buffer empty, total
    /// length zero, nothing absorbed yet.
    pub fn new(seed: u64) -> (r: Self)
        ensures
            r.wf(),
            r.seed() == seed,
            r.absorbed() == Seq::<u8>::empty(),
    {
        let r = BlitzState {
            lanes: init_lanes(seed),
            buffer: Vec::new(),
            total_len: 0,
            seed: Ghost(seed),
            absorbed: Ghost(Seq::empty()),
        };
        proof {
            let e = Seq::<u8>::empty();
            assert(spec_words_of(e) =~= Seq::<u64>::empty());
            assert(spec_tail_of(e) =~= e);
            assert(r.buffer@ =~= e);
        }
        r
    }

    /// Absorbs `data` into the context. Any number of bytes, including zero,
    /// may arrive per call; the absorbed stream grows by exactly `data`, and
    /// how the caller splits a stream into calls leaves no other trace in the
    /// context.
    pub fn absorb(&mut self, data: &[u8])
        requires
            old(self).wf(),
        ensures
            final(self).wf(),
            final(self).seed() == old(self).seed(),
            final(self).absorbed() == old(self).absorbed() + data@,
    {
        let ghost sd = self.seed@;
        let ghost m = self.absorbed@;
        let ghost big = m + data@;
        let ghost f = m.len() as int - (m.len() % 8) as int;

        self.absorbed = Ghost(big);
        proof {
            lemma_aligned_prefix(m.len() as int);
        }
        self.total_len = self.total_len.wrapping_add(data.len() as u64);
        proof {
            lemma_wrap_add_mod(m.len() as int, data@.len() as int);
            // the lanes cover the aligned prefix `f`, common to `m` and `big`
            lemma_words_of_ignore_tail(m, f);
            assert(big.take(f) =~= m.take(f));
        }

        let mut pos: usize = 0;

        if self.buffer.len() > 0 {
            // Top the holding buffer up from the front of `data`.
            while pos < data.len() && self.buffer.len() < 8
                invariant
                    pos <= data.len(),
                    self.buffer@.len() == (m.len() % 8) + pos,
                    self.buffer@.len() <= 8,
                    self.buffer@ == big.subrange(f, m.len() + pos),
                    self.lanes == spec_fold_words(spec_init_lanes(sd), spec_words_of(big.take(f))),
                    self.total_len as int == big.len() as int % spec_pow2_64(),
                    self.seed@ == sd,
                    self.absorbed@ == big,
                    big == m + data@,
                    f == m.len() as int - (m.len() % 8) as int,
                    0 < m.len() % 8,
                decreases 8 - self.buffer@.len(),
            {
                let b = data[pos];
                self.buffer.push(b);
                pos += 1;
                proof {
                    assert(self.buffer@ =~= big.subrange(f, m.len() + pos));
                }
            }
            if self.buffer.len() < 8 {
                // `data` ran out inside the partial word: the stream still
                // ends in a partial word and no new complete word appeared.
                proof {
                    lemma_unfolded_is_tail(big, f);
                    lemma_words_of_ignore_tail(big, f);
                    assert(self.buffer@ =~= spec_tail_of(big));
                }
                return ;
            }
            // The buffer reached 8 bytes: fold it in as one complete word.
            let w = u64_from_le_bytes(self.buffer.as_slice());
            self.lanes = absorb_word(self.lanes, w);
            self.buffer.clear();
            proof {
                assert(m.len() + pos == f + 8);
                lemma_words_of_take_step(big, f);
                lemma_fold_words_push(spec_init_lanes(sd), spec_words_of(big.take(f)), w);
            }
        }

        // Fold in each complete 8-byte word remaining in `data`.
        while data.len() - pos >= 8
            invariant
                pos <= data.len(),
                (m.len() + pos) % 8 == 0,
                self.buffer@.len() == 0,
                self.lanes == spec_fold_words(
                    spec_init_lanes(sd),
                    spec_words_of(big.take(m.len() + pos)),
                ),
                self.total_len as int == big.len() as int % spec_pow2_64(),
                self.seed@ == sd,
                self.absorbed@ == big,
                big == m + data@,
            decreases data.len() - pos,
        {
            let w = u64_from_le_bytes(slice_subrange(data, pos, pos + 8));
            self.lanes = absorb_word(self.lanes, w);
            proof {
                let c = m.len() as int + pos as int;
                assert(data@.subrange(pos as int, pos as int + 8) =~= big.subrange(c, c + 8));
                lemma_words_of_take_step(big, c);
                lemma_fold_words_push(spec_init_lanes(sd), spec_words_of(big.take(c)), w);
                lemma_mod_multiples_vanish(1, c, 8);
            }
            pos += 8;
        }

        // Hold the trailing partial word, if any, for the next call.
        let ghost cfix = m.len() as int + pos as int;
        proof {
            assert(self.buffer@ =~= big.subrange(cfix, cfix));
        }
        while pos < data.len()
            invariant
                pos <= data.len(),
                cfix <= m.len() + pos,
                m.len() + pos - cfix < 8,
                cfix % 8 == 0,
                self.buffer@ == big.subrange(cfix, m.len() + pos),
                self.lanes == spec_fold_words(spec_init_lanes(sd), spec_words_of(big.take(cfix))),
                self.total_len as int == big.len() as int % spec_pow2_64(),
                self.seed@ == sd,
                self.absorbed@ == big,
                big == m + data@,
                data@.len() as int - (cfix - m.len() as int) < 8,
            decreases data.len() - pos,
        {
            let b = data[pos];
            self.buffer.push(b);
            pos += 1;
            proof {
                assert(self.buffer@ =~= big.subrange(cfix, m.len() + pos));
            }
        }
        proof {
            lemma_unfolded_is_tail(big, cfix);
            lemma_words_of_ignore_tail(big, cfix);
            assert(self.buffer@ =~= spec_tail_of(big));
        }
    }

    /// Finalizes the context, consuming it: the zero-padded trailing partial
    /// word (if any) is absorbed, the total length is bound into the lanes,
    /// the avalanche rounds run, and the four lanes are serialized
    /// little-endian into the 32-byte digest.
    pub fn finalize(self) -> (r: Vec<u8>)
        requires
            self.wf(),
        ensures
            r@ == spec_hash(self.seed(), self.absorbed()),
            r@.len() == 32,
    {
        let BlitzState { mut lanes, mut buffer, total_len, seed, absorbed } = self;
        let ghost m = absorbed@;
        if buffer.len() > 0 {
            let ghost t = buffer@;
            proof {
                assert(buffer@ =~= t + Seq::new((buffer@.len() - t.len()) as nat, |i: int| 0u8));
            }
            // Zero-pad the partial trailing word and fold it in.
            while buffer.len() < 8
                invariant
                    t.len() <= buffer@.len() <= 8,
                    buffer@ == t + Seq::new((buffer@.len() - t.len()) as nat, |i: int| 0u8),
                decreases 8 - buffer@.len(),
            {
                buffer.push(0);
                proof {
                    assert(buffer@ =~= t + Seq::new((buffer@.len() - t.len()) as nat, |i: int| 0u8));
                }
            }
            proof {
                assert(buffer@ =~= spec_pad8(t));
            }
            let w = u64_from_le_bytes(buffer.as_slice());
            lanes = absorb_word(lanes, w);
        }
        finish_lanes(lanes, total_len)
    }
}

/// The length of the aligned prefix `x - x % 8` is a nonnegative multiple
/// of 8.
proof fn lemma_aligned_prefix(x: int)
    requires
        0 <= x,
    ensures
        0 <= x % 8 < 8,
        (x - x % 8) % 8 == 0,
        0 <= x - x % 8 <= x,
{
    lemma_mod_bound(x, 8);
    lemma_fundamental_div_mod(x, 8);
    lemma_mod_multiples_basic(x / 8, 8);
}

/// Adding `y` to a 64-bit running total that already holds `a % 2^64` with
/// wraparound yields `(a + y) % 2^64`.
proof fn lemma_wrap_add_mod(a: int, y: int)
    requires
        0 <= a,
        0 <= y < spec_pow2_64(),
    ensures
        vstd::wrapping::u64_specs::wrapping_add((a % spec_pow2_64()) as u64, y as u64) as int == (a
            + y) % spec_pow2_64(),
{
    let m = spec_pow2_64();
    let x = a % m;
    lemma_mod_bound(a, m);
    lemma_add_mod_noop(a, y, m);
    lemma_small_mod(y as nat, m as nat);
    if x + y < m {
        lemma_small_mod((x + y) as nat, m as nat);
    } else {
        lemma_mod_multiples_vanish(1, x + y - m, m);
        lemma_small_mod((x + y - m) as nat, m as nat);
    }
}

} // verus!
