//! Behavioral tests of the one-shot and streaming hashers.

use blitzhash::{blitz_hash, BlitzState};

#[test]
fn test_deterministic() {
    let data = b"Hello, BlitzHash!";
    let h1 = blitz_hash(0, data);
    let h2 = blitz_hash(0, data);
    assert_eq!(h1, h2, "Same input should produce same hash");
}

#[test]
fn lib_test_deterministic() {
    let data = b"Hello, BlitzHash!";
    let h1 = blitz_hash(0, data);
    let h2 = blitz_hash(0, data);
    assert_eq!(h1, h2);
}

#[test]
fn test_different_seeds() {
    let data = b"test data";
    let h1 = blitz_hash(0, data);
    let h2 = blitz_hash(1, data);
    assert_ne!(h1, h2, "Different seeds should produce different hashes");
}

#[test]
fn lib_test_different_seeds() {
    let data = b"test data";
    let h1 = blitz_hash(0, data);
    let h2 = blitz_hash(1, data);
    assert_ne!(h1, h2);
}

#[test]
fn test_streaming_matches_oneshot() {
    let data = b"The quick brown fox jumps over the lazy dog";
    let oneshot = blitz_hash(42, data);

    let mut streaming = BlitzState::new(42);
    streaming.absorb(&data[..10]);
    streaming.absorb(&data[10..20]);
    streaming.absorb(&data[20..]);
    let streamed = streaming.finalize();

    assert_eq!(oneshot, streamed, "Streaming should match one-shot");
}

#[test]
fn lib_test_streaming_matches_oneshot() {
    let data = b"The quick brown fox jumps over the lazy dog";
    let oneshot = blitz_hash(42, data);

    let mut streaming = BlitzState::new(42);
    streaming.absorb(&data[..10]);
    streaming.absorb(&data[10..20]);
    streaming.absorb(&data[20..]);
    let streamed = streaming.finalize();

    assert_eq!(oneshot, streamed);
}

#[test]
fn test_empty_input() {
    let h = blitz_hash(0, b"");
    assert_eq!(h.len(), 32);
}

#[test]
fn lib_test_empty_input() {
    let h = blitz_hash(0, b"");
    assert_eq!(h.len(), 32);
}

#[test]
fn test_single_byte() {
    let h1 = blitz_hash(0, b"a");
    let h2 = blitz_hash(0, b"b");
    assert_ne!(h1, h2);
}

#[test]
fn test_tail_distribution() {
    // Test that short inputs still hash differently
    let h1 = blitz_hash(0, b"a");
    let h2 = blitz_hash(0, b"b");
    let h3 = blitz_hash(0, b"ab");
    assert_ne!(h1, h2);
    assert_ne!(h1, h3);
    assert_ne!(h2, h3);
}
