//! The library's laws, stated and proved over the specification model that
//! the executable contracts are written against.

use vstd::prelude::*;
use crate::parallel::{spec_hash_parallel, PARALLEL_THRESHOLD};
use crate::words::spec_hash;

verus! {

/// The absorbed stream of a streaming session that starts from a fresh
/// context and absorbs the pieces of `parts` in order: each `absorb` call
/// appends its piece, exactly as the contract of [`crate::BlitzState::absorb`]
/// states.
pub open spec fn spec_session_absorbed(parts: Seq<Seq<u8>>) -> Seq<u8>
    decreases parts.len(),
{
    if parts.len() == 0 {
        Seq::empty()
    } else {
        spec_session_absorbed(parts.drop_last()) + parts.last()
    }
}

/// Law (determinism): the one-shot digest is a function of the seed and the
/// input alone, so two digests of the same seed and input are equal.
pub proof fn lemma_hash_deterministic(seed: u64, data: Seq<u8>, r1: Seq<u8>, r2: Seq<u8>)
    requires
        r1 == spec_hash(seed, data),
        r2 == spec_hash(seed, data),
    ensures
        r1 == r2,
{
}

/// Law (streaming/one-shot equivalence): a session that absorbs the pieces of
/// any partition of `data` in order ends holding exactly `data`, so by the
/// contract of [`crate::BlitzState::finalize`] its digest is the one-shot
/// digest `spec_hash(seed, data)`, however the caller chose the partition.
pub proof fn lemma_streaming_matches_oneshot(seed: u64, parts: Seq<Seq<u8>>)
    ensures
        spec_session_absorbed(parts) == parts.flatten(),
        spec_hash(seed, spec_session_absorbed(parts)) == spec_hash(seed, parts.flatten()),
    decreases parts.len(),
{
    if parts.len() == 0 {
        assert(parts.flatten_alt() == Seq::<u8>::empty());
    } else {
        lemma_streaming_matches_oneshot(seed, parts.drop_last());
        parts.drop_last().lemma_flatten_and_flatten_alt_are_equivalent();
    }
    parts.lemma_flatten_and_flatten_alt_are_equivalent();
}

/// Law (chunking threshold): below the parallel threshold, or with at most
/// one worker, the parallel digest equals the one-shot digest, whatever the
/// worker count.
pub proof fn lemma_parallel_below_threshold(seed: u64, data: Seq<u8>, workers: nat)
    requires
        data.len() < PARALLEL_THRESHOLD || workers <= 1,
    ensures
        spec_hash_parallel(seed, data, workers) == spec_hash(seed, data),
{
}

/// Law (parallel determinism): the parallel digest is a function of the seed,
/// the buffer and the worker count alone; the chunk partition and the fold
/// order are fixed by those, so scheduling leaves no trace in the result.
pub proof fn lemma_parallel_deterministic(
    seed: u64,
    data: Seq<u8>,
    workers: nat,
    r1: Seq<u8>,
    r2: Seq<u8>,
)
    requires
        r1 == spec_hash_parallel(seed, data, workers),
        r2 == spec_hash_parallel(seed, data, workers),
    ensures
        r1 == r2,
{
}

} // verus!
