use sha3::{Digest, Keccak256};
use zkbench::air::sponge_constraints_hold;
use zkbench::sponge::{keccak_pad10star1, limbs_to_digest_bytes};
use zkbench::trace::{
    generate_trace_and_public_digest_limbs, generate_trace_from_message, SpongeTrace,
    A_PRIME_START, HASH_END_IDX,
};

fn sample_message(len: usize) -> Vec<u8> {
    (0..len).map(|i| (i % 251) as u8).collect()
}

fn reference_digest(msg: &[u8]) -> Vec<u8> {
    Keccak256::digest(msg).to_vec()
}

fn generate(msg: &Vec<u8>) -> (SpongeTrace, Vec<u16>) {
    assert!(msg.len() <= zkbench::trace::MAX_MESSAGE_BYTES);
    generate_trace_from_message(msg).expect("honest generation must succeed")
}

#[test]
fn digest_limbs_roundtrip_across_lengths() {
    for len in [0usize, 1, 64, 135, 136, 272, 1024] {
        let msg = sample_message(len);
        let (_trace, limbs) = generate(&msg);
        assert_eq!(limbs.len(), 16);
        let bytes = limbs_to_digest_bytes(&limbs);
        assert_eq!(bytes, reference_digest(&msg), "length {}", len);
    }
}

#[test]
fn empty_message_known_digest() {
    let (_trace, limbs) = generate(&Vec::new());
    let bytes = limbs_to_digest_bytes(&limbs);
    let expected = [
        0xc5u8, 0xd2, 0x46, 0x01, 0x86, 0xf7, 0x23, 0x3c, 0x92, 0x7e, 0x7d, 0xb2, 0xdc, 0xc7,
        0x03, 0xc0, 0xe5, 0x00, 0xb6, 0x53, 0xca, 0x82, 0x27, 0x3b, 0x7b, 0xfa, 0xd8, 0x04, 0x5d,
        0x85, 0xa4, 0x70,
    ];
    assert_eq!(bytes, expected.to_vec());
}

#[test]
fn padding_block_counts() {
    // a message one byte short of the rate still fits one block: the 0x01
    // suffix and the closing 0x80 merge into the single byte 0x81
    assert_eq!(keccak_pad10star1(sample_message(134)).len(), 136);
    let one_short = keccak_pad10star1(sample_message(135));
    assert_eq!(one_short.len(), 136);
    assert_eq!(one_short[135], 0x81);
    assert_eq!(keccak_pad10star1(sample_message(136)).len(), 272);
    assert_eq!(keccak_pad10star1(sample_message(271)).len(), 272);
    assert_eq!(keccak_pad10star1(sample_message(272)).len(), 408);
}

#[test]
fn rate_minus_one_message_absorbs_one_block() {
    // 135 bytes pad into a single block, so the trace has 24 real rows
    // padded to 32, with hash_end on row 23
    let msg = sample_message(135);
    let (trace, limbs) = generate(&msg);
    assert_eq!(trace.height, 32);
    assert_eq!(trace.hash_end(23), 1);
    assert_eq!(limbs_to_digest_bytes(&limbs), reference_digest(&msg));
    assert!(sponge_constraints_hold(&trace, &limbs));
}

#[test]
fn honest_traces_satisfy_all_constraints() {
    for len in [0usize, 1, 135, 136, 1024] {
        let msg = sample_message(len);
        let (trace, limbs) = generate(&msg);
        assert!(
            sponge_constraints_hold(&trace, &limbs),
            "constraints failed at length {}",
            len
        );
    }
}

#[test]
fn honest_trace_satisfies_constraints_large() {
    let msg = sample_message(4096);
    let (trace, limbs) = generate(&msg);
    assert!(sponge_constraints_hold(&trace, &limbs));
}

#[test]
fn seeded_trace_entry_matches_reference() {
    let (trace, limbs) = generate_trace_and_public_digest_limbs(128).expect("generation");
    assert!(sponge_constraints_hold(&trace, &limbs));
    let (msg, digest) = zkbench::inputs::generate_keccak_input(128);
    assert_eq!(reference_digest(&msg), digest);
    assert_eq!(limbs_to_digest_bytes(&limbs), digest);
}

#[test]
fn hash_end_occurs_exactly_once() {
    for len in [0usize, 1, 136, 1024] {
        let msg = sample_message(len);
        let (trace, _limbs) = generate(&msg);
        let mut sum = 0u64;
        for r in 0..trace.height {
            sum += trace.hash_end(r);
        }
        assert_eq!(sum, 1, "length {}", len);
    }
}

#[test]
fn active_and_seen_end_are_monotone() {
    for len in [0usize, 1, 136, 1024] {
        let msg = sample_message(len);
        let (trace, _limbs) = generate(&msg);
        for r in 0..trace.height - 1 {
            assert!(trace.active(r) >= trace.active(r + 1));
            assert!(trace.seen_end(r) <= trace.seen_end(r + 1));
        }
        assert_eq!(trace.seen_end(trace.height - 1), 1);
        assert_eq!(trace.active(0), 1);
    }
}

#[test]
fn tampered_capacity_bit_is_rejected() {
    let msg = sample_message(128);
    let (mut trace, limbs) = generate(&msg);
    assert!(sponge_constraints_hold(&trace, &limbs));
    // first capacity bit: index 1088 = lane 17, z 0, x 2, y 3
    let col = A_PRIME_START + 3 * 320 + 2 * 64;
    let original = trace.values[col];
    trace.values[col] = if original == 0 { 1 } else { 0 };
    assert!(
        !sponge_constraints_hold(&trace, &limbs),
        "tampered IV trace must NOT satisfy the constraints"
    );
}

#[test]
fn substituted_digest_limb_is_rejected() {
    let msg = sample_message(64);
    let (trace, mut limbs) = generate(&msg);
    assert!(sponge_constraints_hold(&trace, &limbs));
    limbs[3] = limbs[3].wrapping_add(1);
    assert!(
        !sponge_constraints_hold(&trace, &limbs),
        "a wrong public digest limb must be rejected"
    );
}

#[test]
fn flipped_flag_is_rejected() {
    let msg = sample_message(16);
    let (mut trace, limbs) = generate(&msg);
    let w = zkbench::trace::TOTAL_COLS;
    // clearing hash_end on its row breaks the termination constraint
    let he = 23;
    trace.values[he * w + HASH_END_IDX] = 0;
    assert!(!sponge_constraints_hold(&trace, &limbs));
}
