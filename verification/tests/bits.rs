use fingerprint_fhe::bits::{
    bits_to_usize, bools_to_bytes, bytes_to_bools, hamming_distance, u64_to_bits_80,
};

#[test]
fn test_u64_to_bits_80_low_bit() {
    let bits = u64_to_bits_80(1);
    assert_eq!(bits.len(), 80);
    assert!(bits[0]);
    assert!(bits[1..].iter().all(|&b| !b));
}

#[test]
fn test_u64_to_bits_80_high_bit() {
    let bits = u64_to_bits_80(0x8000_0000_0000_0000);
    assert_eq!(bits.len(), 80);
    assert!(bits[63]);
    assert_eq!(bits.iter().filter(|&&b| b).count(), 1);
}

#[test]
fn test_u64_to_bits_80_value_round_trip() {
    let bits = u64_to_bits_80(0xDEAD_BEEF);
    assert_eq!(bits_to_usize(&bits[..64]) as u64, 0xDEAD_BEEF);
}

#[test]
fn test_bits_to_usize_small() {
    assert_eq!(bits_to_usize(&[]), 0);
    assert_eq!(bits_to_usize(&[true, false, true]), 5);
    assert_eq!(bits_to_usize(&vec![true; 11]), 2047);
}

#[test]
fn test_bools_to_bytes_pattern() {
    // 0x5A is 0101 1010: LSB-first bits false,true,false,true,true,false,true,false.
    let bits = vec![false, true, false, true, true, false, true, false];
    assert_eq!(bools_to_bytes(&bits), vec![0x5A]);
}

#[test]
fn test_bools_to_bytes_partial_chunk_pads() {
    assert_eq!(bools_to_bytes(&[true]), vec![0x01]);
    assert_eq!(bools_to_bytes(&[false, false, false, true]), vec![0x08]);
}

#[test]
fn test_bytes_to_bools_unpacks_lsb_first() {
    let bools = bytes_to_bools(&[0x01, 0x80]);
    assert_eq!(bools.len(), 16);
    assert!(bools[0]);
    assert!(bools[15]);
    assert_eq!(bools.iter().filter(|&&b| b).count(), 2);
}

#[test]
fn test_pack_unpack_round_trip() {
    let bits: Vec<bool> = (0..128).map(|i| i % 3 == 0).collect();
    let packed = bools_to_bytes(&bits);
    assert_eq!(packed.len(), 16);
    assert_eq!(bytes_to_bools(&packed), bits);
}

#[test]
fn test_hamming_distance_zero_and_full() {
    let zeros = vec![false; 128];
    let ones = vec![true; 128];
    assert_eq!(hamming_distance(&zeros, &zeros), 0);
    assert_eq!(hamming_distance(&zeros, &ones), 128);
}

#[test]
fn test_hamming_distance_mixed() {
    let a = vec![true, false, true, false];
    let b = vec![true, true, false, false];
    assert_eq!(hamming_distance(&a, &b), 2);
}
