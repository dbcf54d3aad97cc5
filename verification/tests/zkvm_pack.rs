use zkbench::zkvm::{
    build_framed_input, build_input, bytes_be_to_u64_4, bytes_be_to_u64_8, coord_array,
    decode_public_values, pack_le_words,
};

#[test]
fn framed_input_layout() {
    let framed = build_framed_input(vec![1, 2, 3]);
    assert_eq!(framed, vec![3, 0, 0, 0, 1, 2, 3]);
    let empty = build_framed_input(Vec::new());
    assert_eq!(empty, vec![0, 0, 0, 0]);
}

#[test]
fn packed_words_layout() {
    let mut stdin = vec![0xEEu8];
    pack_le_words(&mut stdin, &[0x01, 0x02]);
    // one data word 0x0201, padded to four words of eight tape bytes each
    let mut expected = vec![0xEEu8];
    expected.extend_from_slice(&[0x01, 0x02, 0, 0, 0, 0, 0, 0]);
    expected.extend_from_slice(&[0u8; 24]);
    assert_eq!(stdin, expected);
}

#[test]
fn packed_words_five_bytes_use_four_words() {
    let mut stdin = Vec::new();
    pack_le_words(&mut stdin, &[1, 2, 3, 4, 5]);
    // two data words round up to one four-word group
    assert_eq!(stdin.len(), 32);
    assert_eq!(&stdin[0..8], &[1, 2, 3, 4, 0, 0, 0, 0]);
    assert_eq!(&stdin[8..16], &[5, 0, 0, 0, 0, 0, 0, 0]);
    assert!(stdin[16..].iter().all(|&b| b == 0));
}

#[test]
fn word_tape_reverses_blocks() {
    let data = vec![0xAAu8, 0xBB, 0xCC, 0xDD];
    let stdin = build_input(data);
    assert_eq!(stdin.len(), 40);
    // eight little-endian length bytes
    assert_eq!(&stdin[0..8], &[4, 0, 0, 0, 0, 0, 0, 0]);
    // the single block's words come out reversed: three zero words first
    assert!(stdin[8..32].iter().all(|&b| b == 0));
    // the first word 0xAABBCCDD, big-endian read, written little-endian
    assert_eq!(&stdin[32..40], &[0xDD, 0xCC, 0xBB, 0xAA, 0, 0, 0, 0]);
}

#[test]
fn decode_public_values_big_endian_words() {
    let mut raw = vec![0x44u8, 0x33, 0x22, 0x11, 0, 0, 0, 0];
    raw.extend_from_slice(&[0x88, 0x77, 0x66, 0x55, 0, 0, 0, 0]);
    let out = decode_public_values(&raw);
    assert_eq!(out, vec![0x11, 0x22, 0x33, 0x44, 0x55, 0x66, 0x77, 0x88]);
}

#[test]
fn decode_public_values_caps_at_eight_words() {
    let raw = vec![0u8; 100];
    let out = decode_public_values(&raw);
    assert_eq!(out.len(), 32);
}

#[test]
fn scalar_limbs_little_endian_order() {
    let mut bytes = [0u8; 32];
    bytes[31] = 0x2a; // least significant byte of the big-endian scalar
    bytes[0] = 0x01; // most significant byte
    let limbs = bytes_be_to_u64_4(&bytes);
    assert_eq!(limbs[0], 0x2a);
    assert_eq!(limbs[3], 0x01u64 << 56);

    let mut y = [0u8; 32];
    y[31] = 7;
    let both = bytes_be_to_u64_8(&bytes, &y);
    assert_eq!(both[0], 0x2a);
    assert_eq!(both[3], 0x01u64 << 56);
    assert_eq!(both[4], 7);
    assert_eq!(both[7], 0);
}

#[test]
fn coord_array_checks_length() {
    let ok = coord_array(&[5u8; 32]).unwrap();
    assert_eq!(ok, [5u8; 32]);
    let err = coord_array(&[5u8; 31]);
    assert_eq!(err, Err("coordinate must be 32 bytes"));
}
