//! The lane state: four independent 64-bit accumulators, seeded from a
//! caller-supplied seed and evolved in lockstep by the mixing primitive, plus
//! the finalization pipeline that binds the total input length to the lanes,
//! runs the fixed avalanche rounds, and serializes the lanes into the
//! 32-byte digest.

use vstd::prelude::*;
use crate::mix::{K1, K2, K3, K4, spec_mix, spec_rotr64, spec_wmul, mix_chunk, rotr64};
use vstd::bytes::{spec_u64_to_le_bytes, u64_to_le_bytes};

verus! {

/// Four 64-bit accumulators. Each input word is mixed into every lane, each
/// lane with its own constant, so the lanes diverge even on identical words.
#[derive(Clone, Copy)]
pub struct Lanes {
    pub l0: u64,
    pub l1: u64,
    pub l2: u64,
    pub l3: u64,
}

/// The initial lane state for a seed: `seed XOR K_i` in lane `i`.
pub open spec fn spec_init_lanes(seed: u64) -> Lanes {
    Lanes { l0: seed ^ K1, l1: seed ^ K2, l2: seed ^ K3, l3: seed ^ K4 }
}

/// Executable lane initialization, exact against [`spec_init_lanes`].
pub fn init_lanes(seed: u64) -> (r: Lanes)
    ensures
        r == spec_init_lanes(seed),
{
    Lanes { l0: seed ^ K1, l1: seed ^ K2, l2: seed ^ K3, l3: seed ^ K4 }
}

/// One absorption step: the word is mixed into all four lanes, lane `i` with
/// constant `K_i`.
pub open spec fn spec_absorb_word(st: Lanes, word: u64) -> Lanes {
    Lanes {
        l0: spec_mix(st.l0, word, K1),
        l1: spec_mix(st.l1, word, K2),
        l2: spec_mix(st.l2, word, K3),
        l3: spec_mix(st.l3, word, K4),
    }
}

/// Executable absorption step, exact against [`spec_absorb_word`].
pub fn absorb_word(st: Lanes, word: u64) -> (r: Lanes)
    ensures
        r == spec_absorb_word(st, word),
{
    Lanes {
        l0: mix_chunk(st.l0, word, K1),
        l1: mix_chunk(st.l1, word, K2),
        l2: mix_chunk(st.l2, word, K3),
        l3: mix_chunk(st.l3, word, K4),
    }
}

/// Length binding: the 64-bit total length is XORed into lane 0 directly and
/// into lanes 1-3 after rotations by 17, 31 and 47 bits.
pub open spec fn spec_xor_len(st: Lanes, total: u64) -> Lanes {
    Lanes {
        l0: st.l0 ^ total,
        l1: st.l1 ^ spec_rotr64(total, 17),
        l2: st.l2 ^ spec_rotr64(total, 31),
        l3: st.l3 ^ spec_rotr64(total, 47),
    }
}

/// One avalanche round: each lane becomes `lane * K_i XOR rotr(lane, r_i)`
/// with per-lane rotations 29, 31, 33, 37.
pub open spec fn spec_avalanche_round(st: Lanes) -> Lanes {
    Lanes {
        l0: spec_wmul(st.l0, K1) ^ spec_rotr64(st.l0, 29),
        l1: spec_wmul(st.l1, K2) ^ spec_rotr64(st.l1, 31),
        l2: spec_wmul(st.l2, K3) ^ spec_rotr64(st.l2, 33),
        l3: spec_wmul(st.l3, K4) ^ spec_rotr64(st.l3, 37),
    }
}

/// The fixed avalanche transform: four rounds.
pub open spec fn spec_avalanche(st: Lanes) -> Lanes {
    spec_avalanche_round(spec_avalanche_round(spec_avalanche_round(spec_avalanche_round(st))))
}

/// The serialized digest: the four lanes in order, each as 8 little-endian
/// bytes, 32 bytes in all.
pub open spec fn spec_digest_bytes(st: Lanes) -> Seq<u8> {
    spec_u64_to_le_bytes(st.l0) + spec_u64_to_le_bytes(st.l1) + spec_u64_to_le_bytes(st.l2)
        + spec_u64_to_le_bytes(st.l3)
}

/// Finalization of a lane state under a total input length: bind the length,
/// run the avalanche rounds, serialize.
pub open spec fn spec_finish(st: Lanes, total: u64) -> Seq<u8> {
    spec_digest_bytes(spec_avalanche(spec_xor_len(st, total)))
}

/// Executable avalanche round, exact against [`spec_avalanche_round`].
fn avalanche_round(st: Lanes) -> (r: Lanes)
    ensures
        r == spec_avalanche_round(st),
{
    Lanes {
        l0: st.l0.wrapping_mul(K1) ^ rotr64(st.l0, 29),
        l1: st.l1.wrapping_mul(K2) ^ rotr64(st.l1, 31),
        l2: st.l2.wrapping_mul(K3) ^ rotr64(st.l2, 33),
        l3: st.l3.wrapping_mul(K4) ^ rotr64(st.l3, 37),
    }
}

/// Executable finalization pipeline, exact against [`spec_finish`].
pub fn finish_lanes(st: Lanes, total: u64) -> (r: Vec<u8>)
    ensures
        r@ == spec_finish(st, total),
        r@.len() == 32,
{
    let bound = Lanes {
        l0: st.l0 ^ total,
        l1: st.l1 ^ rotr64(total, 17),
        l2: st.l2 ^ rotr64(total, 31),
        l3: st.l3 ^ rotr64(total, 47),
    };
    avalanche_and_serialize(bound)
}

/// Executable avalanche rounds plus serialization, exact against
/// [`spec_avalanche`] followed by [`spec_digest_bytes`]. This is the shared
/// back end of one-shot finalization and of the parallel combiner, which
/// avalanches its folded lane state without binding a length.
pub fn avalanche_and_serialize(st: Lanes) -> (r: Vec<u8>)
    ensures
        r@ == spec_digest_bytes(spec_avalanche(st)),
        r@.len() == 32,
{
    let mixed = avalanche_round(avalanche_round(avalanche_round(avalanche_round(st))));
    let mut out = u64_to_le_bytes(mixed.l0);
    let mut part1 = u64_to_le_bytes(mixed.l1);
    out.append(&mut part1);
    let mut part2 = u64_to_le_bytes(mixed.l2);
    out.append(&mut part2);
    let mut part3 = u64_to_le_bytes(mixed.l3);
    out.append(&mut part3);
    proof {
        vstd::bytes::lemma_auto_spec_u64_to_from_le_bytes();
    }
    out
}

} // verus!
