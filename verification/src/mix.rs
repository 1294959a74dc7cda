//! The mixing primitive: one 64-bit lane is combined with one 64-bit input
//! word and a round constant through a two-stage multiply-rotate diffusion
//! step, so that a change in any input bit propagates across both halves of
//! the word.

use vstd::prelude::*;

verus! {

/// First mixing constant; also the multiplier of the second diffusion stage.
pub const K1: u64 = 0x517cc1b727220a95;

/// Second mixing constant.
pub const K2: u64 = 0x85ebca6b2f3c8b51;

/// Third mixing constant.
pub const K3: u64 = 0xc2b2ae3d27d4eb4f;

/// Fourth mixing constant.
pub const K4: u64 = 0x165667b19e3779f9;

/// Multiplication on 64-bit words that wraps on overflow.
pub open spec fn spec_wmul(a: u64, b: u64) -> u64 {
    vstd::wrapping::u64_specs::wrapping_mul(a, b)
}

/// `x` rotated right by `n` bits, for `0 < n < 64`.
pub open spec fn spec_rotr64(x: u64, n: u64) -> u64
    recommends
        0 < n < 64,
{
    (x >> n) | (x << ((64 - n) as u64))
}

/// Executable right rotation, exact against [`spec_rotr64`].
pub fn rotr64(x: u64, n: u64) -> (r: u64)
    requires
        0 < n < 64,
    ensures
        r == spec_rotr64(x, n),
{
    (x >> n) | (x << (64 - n))
}

/// The mixing step: XOR the word into the lane, multiply by the round
/// constant, XOR with a 27-bit rotation, multiply by `K1`, XOR with a 31-bit
/// rotation. All multiplications wrap.
pub open spec fn spec_mix(lane: u64, word: u64, constant: u64) -> u64 {
    let a = lane ^ word;
    let b = spec_wmul(a, constant);
    let c = b ^ spec_rotr64(b, 27);
    let d = spec_wmul(c, K1);
    d ^ spec_rotr64(d, 31)
}

/// Executable mixing primitive, exact against [`spec_mix`].
pub fn mix_chunk(lane: u64, word: u64, constant: u64) -> (r: u64)
    ensures
        r == spec_mix(lane, word, constant),
{
    let mut h = lane ^ word;
    h = h.wrapping_mul(constant);
    h = h ^ rotr64(h, 27);
    h = h.wrapping_mul(K1);
    h ^ rotr64(h, 31)
}

} // verus!
