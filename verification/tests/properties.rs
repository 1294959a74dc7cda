//! Property and scenario tests: pinned digests, partition independence of the
//! streaming absorber, seed sensitivity, avalanche behavior, and the parallel
//! combiner against a hand-rolled serial combination.

use blitzhash::{blitz_hash, blitz_hash_parallel, combine_digests, BlitzState};

/// Deterministic pseudo-random bytes for the larger tests.
fn generated_bytes(len: usize) -> Vec<u8> {
    let mut data = vec![0u8; len];
    let mut state = 0x123456789abcdef0u64;
    for chunk in data.chunks_mut(8) {
        state = state.wrapping_mul(6364136223846793005).wrapping_add(1);
        let bytes = state.to_le_bytes();
        chunk.copy_from_slice(&bytes[..chunk.len()]);
    }
    data
}

#[test]
fn test_empty_digest_pinned() {
    let expected: Vec<u8> = vec![
        181, 65, 26, 185, 36, 243, 43, 195, 50, 238, 57, 200, 82, 81, 95, 254, 246, 232, 71, 144,
        238, 175, 139, 210, 10, 157, 10, 64, 252, 30, 218, 135,
    ];
    assert_eq!(blitz_hash(0, b""), expected);
}

#[test]
fn test_absorb_pieces_matches_oneshot() {
    let seed = 7u64;
    let mut streaming = BlitzState::new(seed);
    streaming.absorb(b"abc");
    streaming.absorb(b"def");
    assert_eq!(streaming.finalize(), blitz_hash(seed, b"abcdef"));
}

#[test]
fn test_streaming_any_partition() {
    let data = generated_bytes(1024);
    let oneshot = blitz_hash(9, &data);
    // piece sizes sweeping through every alignment, with empty calls mixed in
    for step in 1..40usize {
        let mut streaming = BlitzState::new(9);
        streaming.absorb(b"");
        let mut pos = 0;
        while pos < data.len() {
            let end = (pos + step).min(data.len());
            streaming.absorb(&data[pos..end]);
            streaming.absorb(b"");
            pos = end;
        }
        assert_eq!(streaming.finalize(), oneshot, "partition into {}-byte pieces", step);
    }
}

#[test]
fn test_nothing_absorbed_matches_empty_oneshot() {
    let streaming = BlitzState::new(5);
    assert_eq!(streaming.finalize(), blitz_hash(5, b""));
}

#[test]
fn test_seed_sensitivity_pairs() {
    let data = b"seed sensitivity probe";
    let pairs: [(u64, u64); 4] = [
        (0, 1),
        (1, 2),
        (123456789, 987654321),
        (u64::MAX, 0),
    ];
    for (s1, s2) in pairs {
        assert_ne!(blitz_hash(s1, data), blitz_hash(s2, data), "seeds {} vs {}", s1, s2);
    }
}

#[test]
fn test_avalanche_single_bit_flip() {
    let data = generated_bytes(64);
    let base = blitz_hash(0, &data);
    let flips: [(usize, u8); 6] = [(0, 0), (17, 3), (63, 7), (31, 5), (8, 1), (45, 6)];
    for (byte, bit) in flips {
        let mut flipped = data.clone();
        flipped[byte] ^= 1 << bit;
        let h = blitz_hash(0, &flipped);
        let mut differing_bits = 0u32;
        for i in 0..32 {
            differing_bits += (base[i] ^ h[i]).count_ones();
        }
        assert!(
            differing_bits >= 80 && differing_bits <= 176,
            "bit flip at byte {} bit {} changed only {} of 256 output bits",
            byte,
            bit,
            differing_bits
        );
    }
}

#[test]
fn test_parallel_below_threshold_matches_oneshot() {
    let data = generated_bytes(4096);
    let oneshot = blitz_hash(3, &data);
    for workers in [0usize, 1, 2, 8, 64] {
        assert_eq!(blitz_hash_parallel(3, &data, workers), oneshot, "{} workers", workers);
    }
}

#[test]
fn test_parallel_one_worker_matches_oneshot_on_large_input() {
    let data = generated_bytes(1_200_000);
    assert_eq!(blitz_hash_parallel(11, &data, 1), blitz_hash(11, &data));
    assert_eq!(blitz_hash_parallel(11, &data, 0), blitz_hash(11, &data));
}

#[test]
fn test_parallel_deterministic() {
    let data = generated_bytes(1_500_000);
    let h1 = blitz_hash_parallel(42, &data, 4);
    let h2 = blitz_hash_parallel(42, &data, 4);
    assert_eq!(h1, h2);
    assert_eq!(h1.len(), 32);
}

#[test]
fn test_parallel_matches_manual_combine() {
    let data = generated_bytes(1_500_000);
    let seed = 99u64;
    let workers = 3usize;
    let chunk_size = data.len() / workers + usize::from(data.len() % workers != 0);
    let mut digests: Vec<Vec<u8>> = Vec::new();
    let mut idx = 0u64;
    let mut pos = 0;
    while pos < data.len() {
        let end = (pos + chunk_size).min(data.len());
        digests.push(blitz_hash(seed.wrapping_add(idx), &data[pos..end]));
        idx += 1;
        pos = end;
    }
    let manual = combine_digests(seed, &digests);
    assert_eq!(blitz_hash_parallel(seed, &data, workers), manual);
}

#[test]
fn test_combine_order_matters() {
    let d1 = blitz_hash(1, b"first chunk payload");
    let d2 = blitz_hash(2, b"second chunk payload");
    let forward = combine_digests(0, &vec![d1.clone(), d2.clone()]);
    let reversed = combine_digests(0, &vec![d2, d1]);
    assert_ne!(forward, reversed);
}

#[test]
fn test_trailing_zero_padding_limitation() {
    // Documented limitation: a trailing zero byte inside the final partial
    // word pads to the same word; only the length binding separates them.
    let h1 = blitz_hash(0, b"abc");
    let h2 = blitz_hash(0, b"abc\0");
    assert_ne!(h1, h2);
}
