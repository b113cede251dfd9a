//! Matching scenarios at the plaintext level: the homomorphic matcher is
//! proved to decrypt to exactly these values (the popcount counter holds the
//! Hamming distance and the verdict is `distance <= threshold`), so the
//! expected verdicts are checked against the verified plaintext functions.

use fingerprint_fhe::bits::{bytes_to_bools, hamming_distance};
use fingerprint_fhe::matching_fhe::counter_width;

/// Identical fingerprints, feature width 128: pattern 0x5A repeated.
/// Distance 0, match under any threshold.
#[test]
fn test_identical_fingerprints_128() {
    let enrolled = bytes_to_bools(&[0x5A; 16]);
    let probe = bytes_to_bools(&[0x5A; 16]);
    assert_eq!(enrolled.len(), 128);
    let distance = hamming_distance(&enrolled, &probe);
    assert_eq!(distance, 0);
    assert!(distance <= 0);
}

/// Single-bit flip, width 128, threshold for similarity 0.70: the probe has
/// a one at position 0 only. Distance 1, similarity about 0.992, match.
#[test]
fn test_single_bit_flip_128() {
    let enrolled = vec![false; 128];
    let mut probe = vec![false; 128];
    probe[0] = true;
    let distance = hamming_distance(&enrolled, &probe);
    assert_eq!(distance, 1);
    let threshold = 128 * 30 / 100;
    assert!(distance <= threshold);
    let similarity = 1.0 - (distance as f32 / 128.0);
    assert!(similarity >= 0.70);
    assert!(similarity > 0.99);
}

/// Hostile mismatch, width 128, similarity threshold 0.70: all-zero against
/// all-one. Distance 128, similarity 0, no match.
#[test]
fn test_hostile_mismatch_128() {
    let enrolled = vec![false; 128];
    let probe = vec![true; 128];
    let distance = hamming_distance(&enrolled, &probe);
    assert_eq!(distance, 128);
    let threshold = 128 * 30 / 100;
    assert!(distance > threshold);
    let similarity = 1.0 - (distance as f32 / 128.0);
    assert!(similarity < 0.70);
}

/// Threshold boundary, width 1024, similarity threshold 0.80: the distance
/// threshold is 1024 / 5 = 204. Exactly 204 differing bits match; 205 do
/// not.
#[test]
fn test_threshold_boundary_1024() {
    let threshold = 1024 * 20 / 100;
    assert_eq!(threshold, 204);

    let enrolled = vec![false; 1024];

    let mut probe = vec![false; 1024];
    for i in 0..204 {
        probe[i] = true;
    }
    let distance = hamming_distance(&enrolled, &probe);
    assert_eq!(distance, 204);
    assert!(distance <= threshold);

    let mut probe = vec![false; 1024];
    for i in 0..205 {
        probe[i] = true;
    }
    let distance = hamming_distance(&enrolled, &probe);
    assert_eq!(distance, 205);
    assert!(distance > threshold);
}

/// The distance counter width is exactly coupled to the feature width:
/// 8 bits for 128, 9 for 256, 10 for 512, 11 for 1024 — wide enough that a
/// full-distance count (even 1024 at width 1024) cannot wrap.
#[test]
fn test_counter_width_coupling() {
    assert_eq!(counter_width(0), 0);
    assert_eq!(counter_width(1), 1);
    assert_eq!(counter_width(128), 8);
    assert_eq!(counter_width(256), 9);
    assert_eq!(counter_width(512), 10);
    assert_eq!(counter_width(1024), 11);
    assert!(1024 < (1u32 << 11));
}
