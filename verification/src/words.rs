//! The hash as a mathematical function of the whole input: a byte sequence is
//! split into consecutive 8-byte little-endian words that are folded into the
//! lane state in order; a trailing partial word is zero-padded and absorbed
//! last, and the finalization pipeline of [`crate::lanes`] produces the
//! digest.
//!
//! Known limitation: because the trailing partial word is zero-padded before
//! it is absorbed, two inputs of different lengths that differ only by a
//! trailing run of zero bytes inside the same final word collide more often
//! than statistically expected. Callers that need strict prefix-freeness must
//! length-tag their payloads externally. (The digest still binds the exact
//! total length, which separates such inputs in the common case.)

use vstd::prelude::*;
use vstd::bytes::spec_u64_from_le_bytes;
use crate::lanes::{Lanes, spec_absorb_word, spec_init_lanes, spec_finish};

verus! {

/// The modulus of 64-bit wraparound arithmetic.
pub open spec fn spec_pow2_64() -> int {
    0x1_0000_0000_0000_0000
}

/// The little-endian 64-bit word held by 8 bytes.
pub open spec fn spec_word8(s: Seq<u8>) -> u64
    recommends
        s.len() == 8,
{
    spec_u64_from_le_bytes(s)
}

/// A partial word zero-padded to 8 bytes.
pub open spec fn spec_pad8(s: Seq<u8>) -> Seq<u8>
    recommends
        s.len() <= 8,
{
    s + Seq::new((8 - s.len()) as nat, |i: int| 0u8)
}

/// The complete 8-byte words of a byte sequence, in order; trailing bytes
/// beyond the last complete word are not included.
pub open spec fn spec_words_of(m: Seq<u8>) -> Seq<u64> {
    Seq::new(m.len() / 8, |i: int| spec_word8(m.subrange(8 * i, 8 * i + 8)))
}

/// The trailing partial word of a byte sequence: its last `len % 8` bytes.
pub open spec fn spec_tail_of(m: Seq<u8>) -> Seq<u8> {
    m.skip((m.len() - m.len() % 8) as int)
}

/// A word sequence folded into a lane state, first word first.
pub open spec fn spec_fold_words(st: Lanes, ws: Seq<u64>) -> Lanes
    decreases ws.len(),
{
    if ws.len() == 0 {
        st
    } else {
        spec_absorb_word(spec_fold_words(st, ws.drop_last()), ws.last())
    }
}

/// The lane state after absorbing the complete words of `m` from the initial
/// state for `seed`.
pub open spec fn spec_lanes_of(seed: u64, m: Seq<u8>) -> Lanes {
    spec_fold_words(spec_init_lanes(seed), spec_words_of(m))
}

/// The lane state after additionally absorbing the zero-padded trailing
/// partial word, if there is one.
pub open spec fn spec_lanes_with_tail(seed: u64, m: Seq<u8>) -> Lanes {
    let st = spec_lanes_of(seed, m);
    if m.len() % 8 == 0 {
        st
    } else {
        spec_absorb_word(st, spec_word8(spec_pad8(spec_tail_of(m))))
    }
}

/// The digest of input `m` under `seed`: absorb every complete word, absorb
/// the zero-padded tail, bind the total length (reduced modulo 2^64), run the
/// avalanche rounds, serialize.
pub open spec fn spec_hash(seed: u64, m: Seq<u8>) -> Seq<u8> {
    spec_finish(spec_lanes_with_tail(seed, m), (m.len() as int % spec_pow2_64()) as u64)
}

/// Folding one more word is one more absorption step.
pub proof fn lemma_fold_words_push(st: Lanes, ws: Seq<u64>, w: u64)
    ensures
        spec_fold_words(st, ws.push(w)) == spec_absorb_word(spec_fold_words(st, ws), w),
{
    assert(ws.push(w).drop_last() =~= ws);
}

/// Extending an 8-byte-aligned prefix by 8 bytes appends exactly one word.
pub proof fn lemma_words_of_take_step(m: Seq<u8>, c: int)
    requires
        0 <= c,
        c % 8 == 0,
        c + 8 <= m.len(),
    ensures
        spec_words_of(m.take(c + 8)) == spec_words_of(m.take(c)).push(
            spec_word8(m.subrange(c, c + 8)),
        ),
{
    let lhs = spec_words_of(m.take(c + 8));
    let rhs = spec_words_of(m.take(c)).push(spec_word8(m.subrange(c, c + 8)));
    assert(lhs.len() == (c + 8) / 8);
    assert(rhs.len() == c / 8 + 1);
    assert((c + 8) / 8 == c / 8 + 1);
    assert forall|i: int| 0 <= i < lhs.len() implies lhs[i] == rhs[i] by {
        if i < c / 8 {
            assert(8 * i + 8 <= c) by {
                assert(i + 1 <= c / 8);
                assert(8 * (i + 1) <= 8 * (c / 8));
                assert(8 * (c / 8) == c);
            }
            assert(m.take(c + 8).subrange(8 * i, 8 * i + 8) =~= m.take(c).subrange(
                8 * i,
                8 * i + 8,
            ));
        } else {
            assert(i == c / 8);
            assert(8 * i == c) by {
                assert(8 * (c / 8) == c);
            }
            assert(m.take(c + 8).subrange(8 * i, 8 * i + 8) =~= m.subrange(c, c + 8));
        }
    }
    assert(lhs =~= rhs);
}

/// Trailing bytes short of a full word contribute no word: the words of `m`
/// are the words of its longest 8-byte-aligned prefix.
pub proof fn lemma_words_of_ignore_tail(m: Seq<u8>, c: int)
    requires
        0 <= c <= m.len() < c + 8,
        c % 8 == 0,
    ensures
        spec_words_of(m) == spec_words_of(m.take(c)),
{
    let lhs = spec_words_of(m);
    let rhs = spec_words_of(m.take(c));
    assert(m.len() as int / 8 == c / 8) by {
        assert(8 * (c / 8) == c);
        assert(c <= m.len() < c + 8);
    }
    assert forall|i: int| 0 <= i < lhs.len() implies lhs[i] == rhs[i] by {
        assert(8 * i + 8 <= c) by {
            assert(i + 1 <= c / 8);
            assert(8 * (i + 1) <= 8 * (c / 8));
            assert(8 * (c / 8) == c);
        }
        assert(m.subrange(8 * i, 8 * i + 8) =~= m.take(c).subrange(8 * i, 8 * i + 8));
    }
    assert(lhs =~= rhs);
}

/// One step of a left-to-right fold over the complete words of `m`: if the
/// lane state covers the aligned prefix of length `c`, absorbing the word at
/// `c` extends the cover by 8 bytes.
pub proof fn lemma_hash_step(seed: u64, m: Seq<u8>, c: int, w: u64)
    requires
        0 <= c,
        c % 8 == 0,
        c + 8 <= m.len(),
        w == spec_word8(m.subrange(c, c + 8)),
    ensures
        spec_fold_words(spec_init_lanes(seed), spec_words_of(m.take(c + 8))) == spec_absorb_word(
            spec_fold_words(spec_init_lanes(seed), spec_words_of(m.take(c))),
            w,
        ),
{
    lemma_words_of_take_step(m, c);
    lemma_fold_words_push(spec_init_lanes(seed), spec_words_of(m.take(c)), w);
}

/// If the first `c` bytes of `s` are folded, `c` is 8-byte aligned and fewer
/// than 8 bytes follow, then what follows is exactly the trailing partial
/// word of `s`.
pub proof fn lemma_unfolded_is_tail(s: Seq<u8>, c: int)
    requires
        0 <= c <= s.len() < c + 8,
        c % 8 == 0,
    ensures
        s.len() % 8 == s.len() - c,
        s.subrange(c, s.len() as int) == spec_tail_of(s),
{
    vstd::arithmetic::div_mod::lemma_fundamental_div_mod(c, 8);
    vstd::arithmetic::div_mod::lemma_mod_multiples_vanish(c / 8, s.len() as int - c, 8);
    vstd::arithmetic::div_mod::lemma_small_mod((s.len() as int - c) as nat, 8);
    assert(s.subrange(c, s.len() as int) =~= spec_tail_of(s));
}

} // verus!
