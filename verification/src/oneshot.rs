//! The one-shot hasher: the digest of a complete buffer in a single call,
//! equal by contract to creating a streaming context, absorbing the buffer
//! once, and finalizing. Its bulk loop reads the input in 32-byte strides (a
//! wide, bounds-checked fast path); the narrow 8-byte loop and the stride
//! loop meet the same contract, so the wide path is bit-identical to the
//! narrow one for every input.

use vstd::prelude::*;
use vstd::bytes::u64_from_le_bytes;
use vstd::slice::slice_subrange;
use vstd::arithmetic::div_mod::{lemma_mod_multiples_vanish, lemma_small_mod};
use crate::lanes::{absorb_word, finish_lanes, init_lanes, spec_init_lanes};
use crate::words::{
    lemma_hash_step, lemma_unfolded_is_tail, lemma_words_of_ignore_tail, spec_fold_words,
    spec_hash, spec_pad8, spec_pow2_64, spec_tail_of, spec_words_of,
};

verus! {

/// One-shot digest of `data` under `seed`: every complete 8-byte word of
/// `data` is folded into the lanes in order, the zero-padded trailing partial
/// word follows, and finalization binds the length, avalanches and
/// serializes. The result equals what a fresh streaming context would yield
/// after absorbing `data` and finalizing.
#[verifier::rlimit(50)]
pub fn blitz_hash(seed: u64, data: &[u8]) -> (r: Vec<u8>)
    ensures
        r@ == spec_hash(seed, data@),
        r@.len() == 32,
{
    let mut lanes = init_lanes(seed);
    let mut pos: usize = 0;

    proof {
        assert(spec_words_of(data@.take(0)) =~= Seq::<u64>::empty());
    }

    // Wide stride: four words per iteration.
    while data.len() - pos >= 32
        invariant
            pos <= data.len(),
            pos % 8 == 0,
            lanes == spec_fold_words(spec_init_lanes(seed), spec_words_of(data@.take(pos as int))),
        decreases data.len() - pos,
    {
        let w0 = u64_from_le_bytes(slice_subrange(data, pos, pos + 8));
        let w1 = u64_from_le_bytes(slice_subrange(data, pos + 8, pos + 16));
        let w2 = u64_from_le_bytes(slice_subrange(data, pos + 16, pos + 24));
        let w3 = u64_from_le_bytes(slice_subrange(data, pos + 24, pos + 32));
        lanes = absorb_word(lanes, w0);
        lanes = absorb_word(lanes, w1);
        lanes = absorb_word(lanes, w2);
        lanes = absorb_word(lanes, w3);
        proof {
            let c = pos as int;
            lemma_mod_multiples_vanish(1, c, 8);
            lemma_mod_multiples_vanish(2, c, 8);
            lemma_mod_multiples_vanish(3, c, 8);
            lemma_mod_multiples_vanish(4, c, 8);
            lemma_hash_step(seed, data@, c, w0);
            lemma_hash_step(seed, data@, c + 8, w1);
            lemma_hash_step(seed, data@, c + 16, w2);
            lemma_hash_step(seed, data@, c + 24, w3);
        }
        pos += 32;
    }

    // Narrow stride: one word per iteration.
    while data.len() - pos >= 8
        invariant
            pos <= data.len(),
            pos % 8 == 0,
            lanes == spec_fold_words(spec_init_lanes(seed), spec_words_of(data@.take(pos as int))),
        decreases data.len() - pos,
    {
        let w = u64_from_le_bytes(slice_subrange(data, pos, pos + 8));
        lanes = absorb_word(lanes, w);
        proof {
            lemma_mod_multiples_vanish(1, pos as int, 8);
            lemma_hash_step(seed, data@, pos as int, w);
        }
        pos += 8;
    }

    proof {
        lemma_unfolded_is_tail(data@, pos as int);
        lemma_words_of_ignore_tail(data@, pos as int);
    }

    // Zero-pad and fold the trailing partial word, if any.
    if pos < data.len() {
        let mut tail: Vec<u8> = Vec::new();
        let mut i = pos;
        proof {
            assert(tail@ =~= data@.subrange(pos as int, pos as int));
        }
        while i < data.len()
            invariant
                pos <= i <= data.len(),
                tail@ == data@.subrange(pos as int, i as int),
            decreases data.len() - i,
        {
            let b = data[i];
            tail.push(b);
            i += 1;
            proof {
                assert(tail@ =~= data@.subrange(pos as int, i as int));
            }
        }
        let ghost t = tail@;
        proof {
            assert(tail@ =~= t + Seq::new((tail@.len() - t.len()) as nat, |j: int| 0u8));
        }
        while tail.len() < 8
            invariant
                t.len() <= tail@.len() <= 8,
                tail@ == t + Seq::new((tail@.len() - t.len()) as nat, |j: int| 0u8),
            decreases 8 - tail@.len(),
        {
            tail.push(0);
            proof {
                assert(tail@ =~= t + Seq::new((tail@.len() - t.len()) as nat, |j: int| 0u8));
            }
        }
        proof {
            assert(tail@ =~= spec_pad8(spec_tail_of(data@)));
        }
        let w = u64_from_le_bytes(tail.as_slice());
        lanes = absorb_word(lanes, w);
    }

    let total = data.len() as u64;
    proof {
        lemma_small_mod(data@.len(), spec_pow2_64() as nat);
    }
    finish_lanes(lanes, total)
}

} // verus!
