use fingerprint_fhe::trivium::Trivium;
use fingerprint_fhe::bits::u64_to_bits_80;
use rand::Rng;

#[test]
fn test_trivium_basic() {
    let key = vec![false; 80];
    let iv = vec![false; 80];

    let mut trivium = Trivium::new(&key, &iv);

    let plaintext = vec![true, false, true, false];
    let ciphertext = trivium.process(&plaintext);

    let mut trivium2 = Trivium::new(&key, &iv);
    let decrypted = trivium2.process(&ciphertext);

    assert_eq!(plaintext, decrypted, "Trivium encryption/decryption mismatch!");
}

/// First 64 keystream bits for the all-zero key and all-zero IV, as
/// published for Trivium (keystream bytes FB E0 BF 26 58 59 05 1B,
/// LSB-first within each byte).
#[test]
fn test_trivium_zero_key_vector() {
    let key = vec![false; 80];
    let iv = vec![false; 80];
    let mut trivium = Trivium::new(&key, &iv);

    // XOR with zero plaintext exposes the raw keystream.
    let keystream = trivium.process(&vec![false; 64]);

    let expected_bytes: [u8; 8] = [0xFB, 0xE0, 0xBF, 0x26, 0x58, 0x59, 0x05, 0x1B];
    let mut expected = Vec::new();
    for byte in expected_bytes {
        for i in 0..8 {
            expected.push((byte >> i) & 1 == 1);
        }
    }
    assert_eq!(keystream, expected);
}

#[test]
fn test_trivium_keystream_differs_from_plaintext() {
    // With the all-zero key the keystream is not all-zero, so encryption
    // must change an all-zero message.
    let key = vec![false; 80];
    let iv = vec![false; 80];
    let mut trivium = Trivium::new(&key, &iv);
    let ciphertext = trivium.process(&vec![false; 64]);
    assert!(ciphertext.iter().any(|&b| b));
}

/// Transciphering round trip at feature width 512 with a fresh random key
/// and IV: decrypting the ciphertext with the session keystream restores the
/// probe bit for bit.
#[test]
fn test_trivium_round_trip_512() {
    let mut rng = rand::thread_rng();
    let key_u64: u64 = rng.gen();
    let iv_u64: u64 = rng.gen();
    let key = u64_to_bits_80(key_u64);
    let iv = u64_to_bits_80(iv_u64);

    let probe: Vec<bool> = (0..512).map(|i| (i * 7 + 3) % 5 < 2).collect();

    let mut enc = Trivium::new(&key, &iv);
    let ciphertext = enc.process(&probe);

    let mut dec = Trivium::new(&key, &iv);
    let restored = dec.process(&ciphertext);

    assert_eq!(probe, restored);
}

#[test]
fn test_trivium_distinct_ivs_give_distinct_keystreams() {
    let key = u64_to_bits_80(0x0123_4567_89AB_CDEF);
    let iv1 = u64_to_bits_80(1);
    let iv2 = u64_to_bits_80(2);
    let zeros = vec![false; 128];
    let ks1 = Trivium::new(&key, &iv1).process(&zeros);
    let ks2 = Trivium::new(&key, &iv2).process(&zeros);
    assert_ne!(ks1, ks2);
}
