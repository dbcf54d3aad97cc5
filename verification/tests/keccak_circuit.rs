use sha3::{Digest, Keccak256};
use zkbench::circuit::{
    array_to_bits_lsb, connects_hold, eval_wires, keccak256_circuit, keccak256_prepare,
    round_constant, rotr_offset, GateCircuit, KeccakTarget, U64Target, Witness,
};

#[test]
fn bits_lsb_layout() {
    let bits = array_to_bits_lsb(&[0b0000_0001, 0b1000_0000]);
    assert_eq!(bits.len(), 16);
    assert!(bits[0]);
    assert!(bits[1..15].iter().all(|&b| !b));
    assert!(bits[15]);
}

#[test]
fn rotation_rewires_without_gates() {
    let mut builder = GateCircuit::new();
    let w = U64Target::new(&mut builder);
    let before = builder.num_gates();
    let r = w.rotl(1);
    assert_eq!(builder.num_gates(), before);
    for i in 0..64 {
        assert_eq!(r.bits[i], w.bits[(i + 63) % 64]);
    }
}

#[test]
fn tables_match_keccak_f() {
    assert_eq!(round_constant(0), 1);
    assert_eq!(round_constant(23), 0x8000000080008008);
    assert_eq!(rotr_offset(0), 0);
    assert_eq!(rotr_offset(6), 44);
    assert_eq!(rotr_offset(24), 14);
}

fn full_assignment(witness: &Witness, n_gates: usize) -> Vec<bool> {
    let mut assign = vec![false; n_gates];
    for &(wire, value) in &witness.assignments {
        assign[wire] = value;
    }
    assign
}

#[test]
fn keccak_circuit_computes_reference_digest() {
    // the prepared circuit pins the digest wires to the reference digest of
    // the seeded message; evaluating the gates must satisfy every pin
    let (circuit, witness, n_gates) = keccak256_prepare(32);
    let assign = full_assignment(&witness, n_gates);
    let vals = eval_wires(&circuit, &assign);
    assert!(connects_hold(&circuit, &vals));
}

#[test]
fn keccak_circuit_rejects_flipped_message_bit() {
    let (circuit, witness, n_gates) = keccak256_prepare(8);
    let mut assign = full_assignment(&witness, n_gates);
    assign[0] = !assign[0];
    let vals = eval_wires(&circuit, &assign);
    assert!(!connects_hold(&circuit, &vals));
}

#[test]
fn keccak_circuit_digest_wires_carry_digest_bits() {
    // drive the circuit by hand over a chosen message and read the digest
    // wires back out
    let msg: Vec<u8> = (0u8..17).collect();
    let msg_bits = array_to_bits_lsb(&msg);
    let mut builder = GateCircuit::new();
    let mut inputs = Vec::new();
    for _ in 0..msg_bits.len() {
        inputs.push(builder.add_virtual_bool());
    }
    let z = keccak256_circuit(inputs.clone(), &mut builder);
    let n = builder.num_gates();
    let mut assign = vec![false; n];
    for (i, &w) in inputs.iter().enumerate() {
        assign[w] = msg_bits[i];
    }
    let vals = eval_wires(&builder, &assign);
    let expected_bits = array_to_bits_lsb(&Keccak256::digest(&msg));
    for i in 0..256 {
        assert_eq!(vals[z[i]], expected_bits[i], "digest bit {}", i);
    }
}

#[test]
fn state_witness_records_all_lanes() {
    let mut builder = GateCircuit::new();
    let kt = KeccakTarget::new(&mut builder);
    let mut pw = Witness::new();
    let bits: Vec<bool> = (0..1600).map(|i| i % 3 == 0).collect();
    kt.set_witness(&bits, &mut pw);
    assert_eq!(pw.assignments.len(), 1600);
    assert_eq!(pw.assignments[0], (kt.words[0].bits[0], true));
    assert_eq!(pw.assignments[65].0, kt.words[1].bits[1]);
}

#[test]
fn connect_pins_equal_states() {
    let mut builder = GateCircuit::new();
    let a = KeccakTarget::new(&mut builder);
    let b = KeccakTarget::new(&mut builder);
    a.connect(&b, &mut builder);
    let n = builder.num_gates();
    // equal assignments on both states satisfy the copy constraints
    let assign = vec![true; n];
    let vals = eval_wires(&builder, &assign);
    assert!(connects_hold(&builder, &vals));
    // unequal assignments violate them
    let mut assign2 = vec![true; n];
    assign2[0] = false;
    let vals2 = eval_wires(&builder, &assign2);
    assert!(!connects_hold(&builder, &vals2));
}

#[test]
fn keccakf_output_matches_reference_permutation() {
    // one permutation over an all-zero state: compare the circuit's output
    // wires with the known first lane of Keccak-f[1600] on zero input
    let mut builder = GateCircuit::new();
    let kt = KeccakTarget::new(&mut builder);
    let out = kt.keccakf(&mut builder);
    let n = builder.num_gates();
    let assign = vec![false; n];
    let vals = eval_wires(&builder, &assign);
    let mut lane0 = 0u64;
    for z in 0..64 {
        if vals[out.words[0].bits[z]] {
            lane0 |= 1 << z;
        }
    }
    assert_eq!(lane0, 0xF1258F7940E1DDE7);
}
