//! Exercises the homomorphic gate layer against the real FHE library:
//! encryption round trips, gate truth tables, and a small popcount plus
//! threshold pipeline.
//!
//! The production parameter sets take minutes to generate keys for, far past
//! this harness's per-test budget, so the keys here use a deliberately tiny
//! (insecure, but functionally correct) parameter set: wide decompositions
//! that keep the noise negligible over a short circuit.

use fingerprint_fhe::bits::bits_to_usize;
use fingerprint_fhe::fhe::{
    ebool_clone, fhe_and, fhe_decrypt_bit, fhe_encrypt_bit, fhe_xor, EBool, FheClientKey,
    FheEvalKey,
};
use fingerprint_fhe::matching_fhe::{diff_bits, leq_constant, popcount};

use tfhe::boolean::client_key::ClientKey;
use tfhe::boolean::parameters::BooleanParameters;
use tfhe::boolean::server_key::ServerKey;
use tfhe::core_crypto::prelude::{
    DecompositionBaseLog, DecompositionLevelCount, DynamicDistribution, EncryptionKeyChoice,
    GlweDimension, LweDimension, PolynomialSize, StandardDev,
};

fn tiny_keys() -> (FheClientKey, FheEvalKey) {
    let params = BooleanParameters {
        lwe_dimension: LweDimension(32),
        glwe_dimension: GlweDimension(1),
        polynomial_size: PolynomialSize(512),
        lwe_noise_distribution: DynamicDistribution::new_gaussian_from_std_dev(StandardDev(
            9.094947017729282e-13,
        )),
        glwe_noise_distribution: DynamicDistribution::new_gaussian_from_std_dev(StandardDev(
            9.094947017729282e-13,
        )),
        pbs_base_log: DecompositionBaseLog(15),
        pbs_level: DecompositionLevelCount(2),
        ks_base_log: DecompositionBaseLog(7),
        ks_level: DecompositionLevelCount(4),
        encryption_key_choice: EncryptionKeyChoice::Big,
    };
    let cks = ClientKey::new(&params);
    let sks = ServerKey::new(&cks);
    (FheClientKey::from_raw(cks), FheEvalKey::from_raw(sks))
}

fn encrypt_bits(bits: &[bool], client_key: &FheClientKey) -> Vec<EBool> {
    bits.iter().map(|&b| fhe_encrypt_bit(b, client_key)).collect()
}

#[test]
fn test_fhe_encrypt_decrypt_round_trip() {
    let (client_key, _eval_key) = tiny_keys();
    let e_true = fhe_encrypt_bit(true, &client_key);
    let e_false = fhe_encrypt_bit(false, &client_key);
    assert!(fhe_decrypt_bit(&e_true, &client_key));
    assert!(!fhe_decrypt_bit(&e_false, &client_key));
    let copy = ebool_clone(&e_true);
    assert!(fhe_decrypt_bit(&copy, &client_key));
}

#[test]
fn test_fhe_gate_truth_tables() {
    let (client_key, eval_key) = tiny_keys();
    for &a in &[false, true] {
        for &b in &[false, true] {
            let ea = fhe_encrypt_bit(a, &client_key);
            let eb = fhe_encrypt_bit(b, &client_key);
            let x = fhe_xor(&ea, &eb, &eval_key);
            assert_eq!(fhe_decrypt_bit(&x, &client_key), a != b);
            let n = fhe_and(&ea, &eb, &eval_key);
            assert_eq!(fhe_decrypt_bit(&n, &client_key), a && b);
        }
    }
}

#[test]
fn test_fhe_popcount_and_threshold() {
    let (client_key, eval_key) = tiny_keys();
    let e_true = fhe_encrypt_bit(true, &client_key);

    // diff of (1,0,1) and (0,0,1) -> (1,0,0); popcount -> 1; 1 <= 1, not <= 0.
    let left = encrypt_bits(&[true, false, true], &client_key);
    let right = encrypt_bits(&[false, false, true], &client_key);
    let diff = diff_bits(&left, &right, &eval_key);
    let diff_clear: Vec<bool> = diff.iter().map(|d| fhe_decrypt_bit(d, &client_key)).collect();
    assert_eq!(diff_clear, vec![true, false, false]);

    let counter = popcount(&diff, &e_true, &eval_key);
    assert_eq!(counter.len(), 2);
    let counter_clear: Vec<bool> =
        counter.iter().map(|d| fhe_decrypt_bit(d, &client_key)).collect();
    assert_eq!(bits_to_usize(&counter_clear), 1);

    let within = leq_constant(&counter, 1, &e_true, &eval_key);
    assert!(fhe_decrypt_bit(&within, &client_key));
    let beyond = leq_constant(&counter, 0, &e_true, &eval_key);
    assert!(!fhe_decrypt_bit(&beyond, &client_key));
}

#[test]
fn test_fhe_popcount_all_set() {
    let (client_key, eval_key) = tiny_keys();
    let e_true = fhe_encrypt_bit(true, &client_key);

    // Seven set bits need a three-bit counter holding exactly 7.
    let ones = encrypt_bits(&[true; 7], &client_key);
    let counter = popcount(&ones, &e_true, &eval_key);
    assert_eq!(counter.len(), 3);
    let counter_clear: Vec<bool> =
        counter.iter().map(|d| fhe_decrypt_bit(d, &client_key)).collect();
    assert_eq!(bits_to_usize(&counter_clear), 7);

    let at_limit = leq_constant(&counter, 7, &e_true, &eval_key);
    assert!(fhe_decrypt_bit(&at_limit, &client_key));
    let below = leq_constant(&counter, 6, &e_true, &eval_key);
    assert!(!fhe_decrypt_bit(&below, &client_key));
}

#[test]
fn test_fhe_popcount_empty_diff_and_zero_threshold() {
    let (client_key, eval_key) = tiny_keys();
    let e_true = fhe_encrypt_bit(true, &client_key);

    // All-clear diff: the counter holds zero, and 0 <= 0.
    let zeros = encrypt_bits(&[false; 5], &client_key);
    let counter = popcount(&zeros, &e_true, &eval_key);
    assert_eq!(counter.len(), 3);
    let counter_clear: Vec<bool> =
        counter.iter().map(|d| fhe_decrypt_bit(d, &client_key)).collect();
    assert_eq!(bits_to_usize(&counter_clear), 0);

    let zero_ok = leq_constant(&counter, 0, &e_true, &eval_key);
    assert!(fhe_decrypt_bit(&zero_ok, &client_key));
    let generous = leq_constant(&counter, 5, &e_true, &eval_key);
    assert!(fhe_decrypt_bit(&generous, &client_key));
}
