use sha2::Digest as _;
use sha3::Digest as _;
use zkbench::harness::{
    default_security_bits_for_extension, hyperplonk_bench_properties, input_sizes_for,
    jolt_bench_properties, miden_bench_properties, risc0_bench_properties, secure_pcs_config,
    AuditStatus, BenchTarget, Poseidon2Params,
};

#[test]
fn hyperplonk_properties_fields() {
    let p = hyperplonk_bench_properties(100);
    assert_eq!(p.proving_system, "HyperPlonk");
    assert_eq!(p.field_curve, "KoalaBear");
    assert_eq!(p.iop, "HyperPlonk");
    assert_eq!(p.pcs.as_deref(), Some("WHIR"));
    assert_eq!(p.arithm, "AIR");
    assert!(!p.is_zk);
    assert!(!p.is_zkvm);
    assert_eq!(p.security_bits, 100);
    assert!(p.is_pq);
    assert!(p.is_maintained);
    assert_eq!(p.is_audited, AuditStatus::NotAudited);
    assert!(p.isa.is_none());
}

#[test]
fn jolt_properties_fields() {
    let p = jolt_bench_properties();
    assert_eq!(p.proving_system, "Jolt");
    assert_eq!(p.field_curve, "Bn254");
    assert_eq!(p.iop, "Twist & Shout");
    assert_eq!(p.pcs.as_deref(), Some("Dory"));
    assert_eq!(p.security_bits, 128);
    assert!(p.is_zkvm);
    assert_eq!(p.isa.as_deref(), Some("RISC-V RV64IMAC"));
}

#[test]
fn miden_properties_fields() {
    let p = miden_bench_properties();
    assert_eq!(p.proving_system, "STARK");
    assert_eq!(p.field_curve, "Goldilocks");
    assert_eq!(p.pcs.as_deref(), Some("FRI"));
    assert_eq!(p.security_bits, 128);
    assert!(p.is_pq);
    assert_eq!(p.isa.as_deref(), Some("Miden"));
}

#[test]
fn risc0_properties_fields() {
    let p = risc0_bench_properties();
    assert_eq!(p.field_curve, "BabyBear");
    assert_eq!(p.security_bits, 96);
    assert!(p.is_zk);
    assert_eq!(p.is_audited, AuditStatus::Audited);
    assert_eq!(p.isa.as_deref(), Some("RISC-V RV32IM"));
}

#[test]
fn input_sizes_per_target() {
    assert_eq!(
        input_sizes_for(BenchTarget::Keccak),
        vec![128, 256, 512, 1024, 2048]
    );
    assert_eq!(
        input_sizes_for(BenchTarget::Sha256),
        vec![128, 256, 512, 1024, 2048]
    );
    assert_eq!(input_sizes_for(BenchTarget::Ecdsa), vec![32]);
    assert_eq!(input_sizes_for(BenchTarget::Poseidon), vec![2, 4, 8, 16, 32]);
    assert_eq!(
        input_sizes_for(BenchTarget::Poseidon2),
        vec![2, 4, 8, 16, 32]
    );
}

#[test]
fn default_security_bits_follow_extension_policy() {
    assert_eq!(default_security_bits_for_extension(4), 100);
    assert_eq!(default_security_bits_for_extension(8), 128);
    assert_eq!(default_security_bits_for_extension(5), 128);
}

#[test]
fn secure_pcs_config_fields() {
    let c = secure_pcs_config();
    assert_eq!(c.pow_bits, 26);
    assert_eq!(c.fri_config.log_last_layer_degree_bound, 0);
    assert_eq!(c.fri_config.log_blowup_factor, 1);
    assert_eq!(c.fri_config.n_queries, 70);
}

#[test]
fn poseidon2_default_rounds() {
    let p = Poseidon2Params::default();
    assert_eq!(p.r_f, 8);
    assert_eq!(p.r_p, 56);
    assert_eq!(p.t, 2);
}

#[test]
fn keccak_input_matches_reference_hash() {
    let (msg, digest) = zkbench::inputs::generate_keccak_input(200);
    assert_eq!(msg.len(), 200);
    assert_eq!(digest, sha3::Keccak256::digest(&msg).to_vec());
}

#[test]
fn sha256_input_matches_reference_hash() {
    let (msg, digest) = zkbench::inputs::generate_sha256_input(77);
    assert_eq!(msg.len(), 77);
    assert_eq!(digest, sha2::Sha256::digest(&msg).to_vec());
}

#[test]
fn seeded_inputs_are_deterministic() {
    assert_eq!(
        zkbench::inputs::generate_keccak_input(64),
        zkbench::inputs::generate_keccak_input(64)
    );
    assert_eq!(
        zkbench::inputs::generate_sha256_input(64),
        zkbench::inputs::generate_sha256_input(64)
    );
}

#[test]
fn poseidon_inputs_in_range() {
    let v = zkbench::inputs::generate_poseidon_input(5);
    assert_eq!(v.len(), 5);
    for e in &v {
        assert_eq!(e.len(), 32);
        assert!(e[31] <= 0x1f);
    }
    let m = zkbench::inputs::generate_poseidon_input_m31(9);
    assert_eq!(m.len(), 9);
    for x in m {
        assert!(x < (1u32 << 31) - 1);
    }
    let g = zkbench::inputs::generate_poseidon_input_goldilocks(9);
    assert_eq!(g.len(), 9);
    for x in g {
        assert!(x < 0xFFFFFFFF00000001);
    }
}
