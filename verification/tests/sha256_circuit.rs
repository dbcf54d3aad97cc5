use sha2::{Digest, Sha256};
use zkbench::spartan::Sha256Circuit;

#[test]
fn public_values_are_digest_bits_msb_first() {
    let preimage: Vec<u8> = (0u8..50).collect();
    let circuit = Sha256Circuit::new(preimage.clone());
    let values = circuit.public_values();
    assert_eq!(values.len(), 256);
    let digest = Sha256::digest(&preimage);
    for i in 0..256 {
        let expected = (digest[i / 8] >> (7 - i % 8)) & 1;
        assert_eq!(values[i], expected, "bit {}", i);
    }
    assert!(values.iter().all(|&v| v <= 1));
}

#[test]
fn empty_preimage_known_digest_bits() {
    let circuit = Sha256Circuit::new(Vec::new());
    let values = circuit.public_values();
    // SHA-256 of the empty string starts with 0xe3 = 1110 0011
    assert_eq!(&values[0..8], &[1, 1, 1, 0, 0, 0, 1, 1]);
}
