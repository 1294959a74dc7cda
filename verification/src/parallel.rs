//! The parallel combiner: a large buffer is partitioned into contiguous
//! equal-sized chunks (the last may be shorter), each chunk is hashed
//! independently under an index-perturbed seed, and the per-chunk digests are
//! folded, strictly in chunk order, into a fresh lane state that is then
//! avalanched and serialized. The parallel digest is a distinct algorithm
//! from the serial one, except below the threshold, where the call delegates
//! to the one-shot hasher.

use rayon::iter::{IndexedParallelIterator, ParallelIterator};
use rayon::slice::ParallelSlice;
use vstd::prelude::*;
use vstd::bytes::u64_from_le_bytes;
use vstd::slice::slice_subrange;
use vstd::arithmetic::div_mod::{lemma_div_non_zero, lemma_small_mod};
use crate::lanes::{
    Lanes, avalanche_and_serialize, init_lanes, spec_avalanche, spec_digest_bytes,
    spec_init_lanes,
};
use crate::mix::{K1, K2, K3, K4, mix_chunk, spec_mix};
use crate::oneshot::blitz_hash;
use crate::words::{spec_hash, spec_word8};

verus! {

/// Inputs shorter than this many bytes are hashed serially even when several
/// workers are requested.
pub const PARALLEL_THRESHOLD: usize = 1000000;

/// 64-bit modular addition: the seed of chunk `i` is `seed + i` with
/// wraparound.
pub open spec fn spec_wrap_add64(a: u64, b: u64) -> u64 {
    vstd::wrapping::u64_specs::wrapping_add(a, b)
}

/// The chunk size for a buffer of `len` bytes over `workers` workers:
/// `len / workers`, rounded up so the chunks cover the buffer.
pub open spec fn spec_chunk_size(len: nat, workers: nat) -> nat
    recommends
        workers >= 1,
{
    if len % workers == 0 {
        len / workers
    } else {
        len / workers + 1
    }
}

/// How many chunks of size `size` cover `len` bytes (the last may be
/// shorter).
pub open spec fn spec_chunk_count(len: nat, size: nat) -> nat
    recommends
        size >= 1,
{
    if len % size == 0 {
        len / size
    } else {
        len / size + 1
    }
}

/// Chunk `i` of `data` under chunk size `size`: the bytes from `i * size` up
/// to the next chunk boundary or the end of the buffer.
pub open spec fn spec_chunk(data: Seq<u8>, size: nat, i: int) -> Seq<u8>
    recommends
        size >= 1,
        0 <= i < spec_chunk_count(data.len(), size),
{
    data.subrange(
        i * size,
        if (i + 1) * size <= data.len() {
            (i + 1) * size
        } else {
            data.len() as int
        },
    )
}

/// The per-chunk digests, in chunk order: chunk `i` is hashed one-shot under
/// seed `seed + i` (modular).
pub open spec fn spec_chunk_digests(seed: u64, data: Seq<u8>, size: nat) -> Seq<Seq<u8>>
    recommends
        size >= 1,
{
    Seq::new(
        spec_chunk_count(data.len(), size),
        |i: int| spec_hash(spec_wrap_add64(seed, i as u64), spec_chunk(data, size, i)),
    )
}

/// One fold step of the combiner: the four lanes of a 32-byte chunk digest
/// are mixed into the four combiner lanes, lane by lane, with the per-lane
/// constants.
pub open spec fn spec_absorb_digest(st: Lanes, d: Seq<u8>) -> Lanes
    recommends
        d.len() == 32,
{
    Lanes {
        l0: spec_mix(st.l0, spec_word8(d.subrange(0, 8)), K1),
        l1: spec_mix(st.l1, spec_word8(d.subrange(8, 16)), K2),
        l2: spec_mix(st.l2, spec_word8(d.subrange(16, 24)), K3),
        l3: spec_mix(st.l3, spec_word8(d.subrange(24, 32)), K4),
    }
}

/// Chunk digests folded into a lane state, strictly in chunk order. The fold
/// is not commutative: reordering the digests changes the result.
pub open spec fn spec_fold_digests(st: Lanes, ds: Seq<Seq<u8>>) -> Lanes
    decreases ds.len(),
{
    if ds.len() == 0 {
        st
    } else {
        spec_absorb_digest(spec_fold_digests(st, ds.drop_last()), ds.last())
    }
}

/// The combined digest: a fresh lane state for `seed`, the chunk digests
/// folded in order, the fixed avalanche rounds, the serialization.
pub open spec fn spec_combine(seed: u64, ds: Seq<Seq<u8>>) -> Seq<u8> {
    spec_digest_bytes(spec_avalanche(spec_fold_digests(spec_init_lanes(seed), ds)))
}

/// The views of a vector of digests, in order.
pub open spec fn spec_digest_views(ds: Seq<Vec<u8>>) -> Seq<Seq<u8>> {
    Seq::new(ds.len(), |i: int| ds[i]@)
}

/// The parallel digest of `data` under `seed` and `workers` workers: below
/// the threshold, or with at most one worker, the one-shot digest; otherwise
/// the combination of the per-chunk digests.
pub open spec fn spec_hash_parallel(seed: u64, data: Seq<u8>, workers: nat) -> Seq<u8> {
    if data.len() < PARALLEL_THRESHOLD || workers <= 1 {
        spec_hash(seed, data)
    } else {
        spec_combine(
            seed,
            spec_chunk_digests(seed, data, spec_chunk_size(data.len(), workers)),
        )
    }
}

/// The per-chunk worker: one chunk hashed one-shot under the seed perturbed
/// by the chunk index (modular addition).
fn chunk_hash(seed: u64, idx: u64, chunk: &[u8]) -> (r: Vec<u8>)
    ensures
        r@ == spec_hash(spec_wrap_add64(seed, idx), chunk@),
        r@.len() == 32,
{
    blitz_hash(seed.wrapping_add(idx), chunk)
}

/// Relies on rayon 1.12: `par_chunks(chunk_size)` yields the consecutive,
/// non-overlapping `chunk_size`-byte chunks of the slice in order, the last
/// possibly shorter, and panics only when `chunk_size` is zero; `enumerate`
/// pairs each chunk with its index; `map` applies `chunk_hash` to each pair;
/// `collect` on this indexed parallel iterator produces a vector in index
/// order regardless of scheduling. A worker-pool failure propagates as a
/// panic, so no partial result is ever returned.
#[verifier::external_body]
fn hash_chunks_parallel(seed: u64, data: &[u8], chunk_size: usize) -> (r: Vec<Vec<u8>>)
    requires
        chunk_size >= 1,
    ensures
        spec_digest_views(r@) == spec_chunk_digests(seed, data@, chunk_size as nat),
        forall|i: int| 0 <= i < r@.len() ==> (#[trigger] r@[i])@.len() == 32,
{
    data.par_chunks(chunk_size)
        .enumerate()
        .map(|(idx, chunk)| chunk_hash(seed, idx as u64, chunk))
        .collect()
}

/// Folds the given 32-byte chunk digests, strictly in order, into a fresh
/// lane state for `seed`, then avalanches and serializes: the fan-in stage of
/// the parallel combiner.
pub fn combine_digests(seed: u64, digests: &Vec<Vec<u8>>) -> (r: Vec<u8>)
    requires
        forall|i: int| 0 <= i < digests@.len() ==> (#[trigger] digests@[i])@.len() == 32,
    ensures
        r@ == spec_combine(seed, spec_digest_views(digests@)),
        r@.len() == 32,
{
    let ghost ds = spec_digest_views(digests@);
    let mut st = init_lanes(seed);
    let mut i: usize = 0;
    proof {
        assert(ds.take(0) =~= Seq::<Seq<u8>>::empty());
    }
    while i < digests.len()
        invariant
            i <= digests@.len(),
            forall|j: int| 0 <= j < digests@.len() ==> (#[trigger] digests@[j])@.len() == 32,
            ds == spec_digest_views(digests@),
            st == spec_fold_digests(spec_init_lanes(seed), ds.take(i as int)),
        decreases digests@.len() - i,
    {
        let d: &Vec<u8> = &digests[i];
        let w0 = u64_from_le_bytes(slice_subrange(d.as_slice(), 0, 8));
        let w1 = u64_from_le_bytes(slice_subrange(d.as_slice(), 8, 16));
        let w2 = u64_from_le_bytes(slice_subrange(d.as_slice(), 16, 24));
        let w3 = u64_from_le_bytes(slice_subrange(d.as_slice(), 24, 32));
        st = Lanes {
            l0: mix_chunk(st.l0, w0, K1),
            l1: mix_chunk(st.l1, w1, K2),
            l2: mix_chunk(st.l2, w2, K3),
            l3: mix_chunk(st.l3, w3, K4),
        };
        proof {
            assert(ds.take(i as int + 1).drop_last() =~= ds.take(i as int));
            assert(ds.take(i as int + 1).last() == d@);
        }
        i += 1;
    }
    proof {
        assert(ds.take(digests@.len() as int) =~= ds);
    }
    avalanche_and_serialize(st)
}

/// Parallel digest of `data` under `seed` with `num_threads` workers. Below
/// [`PARALLEL_THRESHOLD`] bytes, or with at most one worker, this is exactly
/// the one-shot digest; otherwise the buffer is partitioned into
/// `num_threads` contiguous chunks (the last possibly shorter), the chunks
/// are hashed in parallel under index-perturbed seeds, and the chunk digests
/// are combined in chunk order. The digest depends only on `seed`, `data`
/// and `num_threads`, never on scheduling.
#[verifier::rlimit(50)]
pub fn blitz_hash_parallel(seed: u64, data: &[u8], num_threads: usize) -> (r: Vec<u8>)
    ensures
        r@ == spec_hash_parallel(seed, data@, num_threads as nat),
        r@.len() == 32,
{
    if data.len() < PARALLEL_THRESHOLD || num_threads <= 1 {
        return blitz_hash(seed, data);
    }
    let len = data.len();
    let chunk_size = if len % num_threads == 0 {
        proof {
            if len < num_threads {
                lemma_small_mod(len as nat, num_threads as nat);
            }
            lemma_div_non_zero(len as int, num_threads as int);
        }
        len / num_threads
    } else {
        proof {
            vstd::arithmetic::div_mod::lemma_div_is_strictly_smaller(
                len as int,
                num_threads as int,
            );
        }
        len / num_threads + 1
    };
    let partials = hash_chunks_parallel(seed, data, chunk_size);
    combine_digests(seed, &partials)
}

} // verus!
