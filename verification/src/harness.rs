//! Benchmark-harness data: the per-system properties sheet, the benchmark
//! targets and the key under which a system's measurements are collected.
use vstd::prelude::*;
use vstd::string::StringExecFns;
use vstd::string::StrSliceExecFns;

verus! {

/// Whether a proving system's code base has been audited.
#[derive(Clone, Copy, Debug, PartialEq, Eq, Structural)]
pub enum AuditStatus {
    /// No audit is known.
    NotAudited,
    /// Parts of the stack were audited.
    PartiallyAudited,
    /// The system was audited.
    Audited,
}

/// The workload a benchmark exercises.
#[derive(Clone, Copy, Debug, PartialEq, Eq, Structural)]
pub enum BenchTarget {
    /// SHA-256 hashing of a byte message.
    Sha256,
    /// Keccak-256 hashing of a byte message.
    Keccak,
    /// ECDSA signature verification.
    Ecdsa,
    /// Poseidon hashing of field elements.
    Poseidon,
    /// Poseidon2 hashing of field elements.
    Poseidon2,
}

/// The proving systems the benchmarks cover.
#[derive(Clone, Copy, Debug, PartialEq, Eq, Structural)]
pub enum ProvingSystem {
    /// Circom with Groth16.
    Circom,
    /// The HyperPlonk pipeline over the Keccak sponge AIR.
    Hyperplonk,
    /// The Jolt zkVM.
    Jolt,
    /// The Miden VM.
    Miden,
    /// The Nexus zkVM.
    Nexus,
    /// Plonky2.
    Plonky2,
    /// Provekit (Noir over Spartan + WHIR).
    Provekit,
    /// RISC Zero.
    Risc0,
    /// The Rookie Numbers prover.
    RookieNumbers,
    /// Spartan2.
    Spartan2,
    /// Whirlaway.
    Whirlaway,
}

/// The properties sheet of one proving system, as collected benchmarks
/// report it.
pub struct BenchProperties {
    /// Name of the proving system.
    pub proving_system: String,
    /// Field or curve the system works over.
    pub field_curve: String,
    /// Interactive oracle proof at its core.
    pub iop: String,
    /// Polynomial commitment scheme, if any is named.
    pub pcs: Option<String>,
    /// Arithmetization style.
    pub arithm: String,
    /// Whether proofs are zero-knowledge.
    pub is_zk: bool,
    /// Whether the system is a zkVM.
    pub is_zkvm: bool,
    /// Targeted security level in bits.
    pub security_bits: u64,
    /// Whether the assumptions are post-quantum.
    pub is_pq: bool,
    /// Whether the project is maintained.
    pub is_maintained: bool,
    /// Audit status of the code base.
    pub is_audited: AuditStatus,
    /// Instruction-set architecture, for zkVMs.
    pub isa: Option<String>,
}

impl BenchProperties {
    /// Build a properties sheet from string slices.
    pub fn new(
        proving_system: &str,
        field_curve: &str,
        iop: &str,
        pcs: Option<&str>,
        arithm: &str,
        is_zk: bool,
        is_zkvm: bool,
        security_bits: u64,
        is_pq: bool,
        is_maintained: bool,
        is_audited: AuditStatus,
        isa: Option<&str>,
    ) -> (r: BenchProperties)
        ensures
            r.proving_system@ == proving_system@,
            r.field_curve@ == field_curve@,
            r.iop@ == iop@,
            r.pcs is Some <==> pcs is Some,
            pcs is Some ==> r.pcs->0@ == pcs->0@,
            r.arithm@ == arithm@,
            r.is_zk == is_zk,
            r.is_zkvm == is_zkvm,
            r.security_bits == security_bits,
            r.is_pq == is_pq,
            r.is_maintained == is_maintained,
            r.is_audited == is_audited,
            r.isa is Some <==> isa is Some,
            isa is Some ==> r.isa->0@ == isa->0@,
    {
        BenchProperties {
            proving_system: String::from_str(proving_system),
            field_curve: String::from_str(field_curve),
            iop: String::from_str(iop),
            pcs: match pcs {
                Some(s) => Some(String::from_str(s)),
                None => None,
            },
            arithm: String::from_str(arithm),
            is_zk,
            is_zkvm,
            security_bits,
            is_pq,
            is_maintained,
            is_audited,
            isa: match isa {
                Some(s) => Some(String::from_str(s)),
                None => None,
            },
        }
    }
}

/// The properties sheet of the HyperPlonk pipeline at a chosen security
/// level: a KoalaBear AIR proved with WHIR.
pub fn hyperplonk_bench_properties(security_bits: u64) -> (r: BenchProperties)
    ensures
        r.proving_system@ == "HyperPlonk"@,
        r.field_curve@ == "KoalaBear"@,
        r.iop@ == "HyperPlonk"@,
        r.pcs is Some && r.pcs->0@ == "WHIR"@,
        r.arithm@ == "AIR"@,
        !r.is_zk,
        !r.is_zkvm,
        r.security_bits == security_bits,
        r.is_pq,
        r.is_maintained,
        r.is_audited == AuditStatus::NotAudited,
        r.isa is None,
{
    BenchProperties::new(
        "HyperPlonk",
        "KoalaBear",
        "HyperPlonk",
        Some("WHIR"),
        "AIR",
        false,
        false,
        security_bits,
        true,
        true,
        AuditStatus::NotAudited,
        None,
    )
}

/// The properties sheet of the Jolt zkVM.
pub fn jolt_bench_properties() -> (r: BenchProperties)
    ensures
        r.proving_system@ == "Jolt"@,
        r.field_curve@ == "Bn254"@,
        r.iop@ == "Twist & Shout"@,
        r.pcs is Some && r.pcs->0@ == "Dory"@,
        r.arithm@ == "Jolt"@,
        !r.is_zk,
        r.is_zkvm,
        r.security_bits == 128,
        !r.is_pq,
        r.is_maintained,
        r.is_audited == AuditStatus::NotAudited,
        r.isa is Some && r.isa->0@ == "RISC-V RV64IMAC"@,
{
    BenchProperties::new(
        "Jolt",
        "Bn254",
        "Twist & Shout",
        Some("Dory"),
        "Jolt",
        false,
        true,
        128,
        false,
        true,
        AuditStatus::NotAudited,
        Some("RISC-V RV64IMAC"),
    )
}

/// The properties sheet of the Miden VM.
pub fn miden_bench_properties() -> (r: BenchProperties)
    ensures
        r.proving_system@ == "STARK"@,
        r.field_curve@ == "Goldilocks"@,
        r.iop@ == "STARK"@,
        r.pcs is Some && r.pcs->0@ == "FRI"@,
        r.arithm@ == "AIR"@,
        !r.is_zk,
        r.is_zkvm,
        r.security_bits == 128,
        r.is_pq,
        r.is_maintained,
        r.is_audited == AuditStatus::NotAudited,
        r.isa is Some && r.isa->0@ == "Miden"@,
{
    BenchProperties::new(
        "STARK",
        "Goldilocks",
        "STARK",
        Some("FRI"),
        "AIR",
        false,
        true,
        128,
        true,
        true,
        AuditStatus::NotAudited,
        Some("Miden"),
    )
}

/// The properties sheet of RISC Zero.
pub fn risc0_bench_properties() -> (r: BenchProperties)
    ensures
        r.proving_system@ == "STARK"@,
        r.field_curve@ == "BabyBear"@,
        r.iop@ == "STARK"@,
        r.pcs is Some && r.pcs->0@ == "FRI"@,
        r.arithm@ == "AIR"@,
        r.is_zk,
        r.is_zkvm,
        r.security_bits == 96,
        r.is_pq,
        r.is_maintained,
        r.is_audited == AuditStatus::Audited,
        r.isa is Some && r.isa->0@ == "RISC-V RV32IM"@,
{
    BenchProperties::new(
        "STARK",
        "BabyBear",
        "STARK",
        Some("FRI"),
        "AIR",
        true,
        true,
        96,
        true,
        true,
        AuditStatus::Audited,
        Some("RISC-V RV32IM"),
    )
}

/// The collection key of one system's measurements: the system name, with
/// `_feature` appended when a non-empty feature name is set.
pub open spec fn spec_system_key(name: Seq<char>, feat: Option<Seq<char>>) -> Seq<char> {
    match feat {
        Some(f) => if f.len() > 0 {
            name + seq!['_'] + f
        } else {
            name
        },
        None => name,
    }
}

/// Compute the unique system key from a metrics entry.
pub fn system_key(name: &str, feat: &Option<String>) -> (r: String)
    ensures
        r@ == spec_system_key(
            name@,
            match feat {
                Some(f) => Some(f@),
                None => None::<Seq<char>>,
            },
        ),
{
    match feat {
        Some(f) => {
            if f.as_str().unicode_len() > 0 {
                let mut out = String::from_str(name);
                out.append("_");
                out.append(f.as_str());
                proof {
                    reveal_strlit("_");
                    assert(out@ =~= name@ + seq!['_'] + f@);
                }
                out
            } else {
                String::from_str(name)
            }
        },
        None => String::from_str(name),
    }
}

/// Message sizes in bytes exercised by the hashing benchmarks.
pub fn selected_byte_inputs() -> (r: Vec<usize>)
    ensures
        r@ == seq![128usize, 256usize, 512usize, 1024usize, 2048usize],
{
    let mut v: Vec<usize> = Vec::new();
    v.push(128);
    v.push(256);
    v.push(512);
    v.push(1024);
    v.push(2048);
    proof {
        assert(v@ =~= seq![128usize, 256usize, 512usize, 1024usize, 2048usize]);
    }
    v
}

/// Element counts exercised by the field-element hashing benchmarks.
pub fn selected_field_element_inputs() -> (r: Vec<usize>)
    ensures
        r@ == seq![2usize, 4usize, 8usize, 16usize, 32usize],
{
    let mut v: Vec<usize> = Vec::new();
    v.push(2);
    v.push(4);
    v.push(8);
    v.push(16);
    v.push(32);
    proof {
        assert(v@ =~= seq![2usize, 4usize, 8usize, 16usize, 32usize]);
    }
    v
}

/// The input sizes a benchmark target is run at.
pub fn input_sizes_for(target: BenchTarget) -> (r: Vec<usize>)
    ensures
        (target == BenchTarget::Sha256 || target == BenchTarget::Keccak) ==> r@ == seq![
            128usize,
            256usize,
            512usize,
            1024usize,
            2048usize,
        ],
        target == BenchTarget::Ecdsa ==> r@ == seq![32usize],
        (target == BenchTarget::Poseidon || target == BenchTarget::Poseidon2) ==> r@ == seq![
            2usize,
            4usize,
            8usize,
            16usize,
            32usize,
        ],
{
    match target {
        BenchTarget::Sha256 | BenchTarget::Keccak => selected_byte_inputs(),
        BenchTarget::Ecdsa => {
            let mut v: Vec<usize> = Vec::new();
            v.push(32);
            proof {
                assert(v@ =~= seq![32usize]);
            }
            v
        },
        BenchTarget::Poseidon | BenchTarget::Poseidon2 => selected_field_element_inputs(),
    }
}

/// The default security level for a proving run over an extension field of
/// the given degree: degree-four extensions target 100 bits, larger ones
/// 128.
pub fn default_security_bits_for_extension(dimension: usize) -> (r: u64)
    ensures
        r == if dimension == 4 {
            100u64
        } else {
            128u64
        },
{
    if dimension == 4 {
        100
    } else {
        128
    }
}

/// Low-degree-test parameters of the Rookie Numbers prover.
pub struct FriConfig {
    /// Log of the degree bound of the last folded layer.
    pub log_last_layer_degree_bound: u32,
    /// Log of the blowup factor.
    pub log_blowup_factor: u32,
    /// Number of queries.
    pub n_queries: usize,
}

/// Commitment-scheme parameters of the Rookie Numbers prover.
pub struct PcsConfig {
    /// Proof-of-work grinding bits.
    pub pow_bits: u32,
    /// The FRI parameters.
    pub fri_config: FriConfig,
}

/// The secure parameter choice for the Rookie Numbers prover: 26 grinding
/// bits and 70 queries at blowup 2.
pub fn secure_pcs_config() -> (r: PcsConfig)
    ensures
        r.pow_bits == 26,
        r.fri_config.log_last_layer_degree_bound == 0,
        r.fri_config.log_blowup_factor == 1,
        r.fri_config.n_queries == 70,
{
    PcsConfig {
        pow_bits: 26,
        fri_config: FriConfig {
            log_last_layer_degree_bound: 0,
            log_blowup_factor: 1,
            n_queries: 70,
        },
    }
}

/// Round structure of the Poseidon2 hash over BN254 with state size two.
pub struct Poseidon2Params {
    /// Full rounds.
    pub r_f: usize,
    /// Partial rounds.
    pub r_p: usize,
    /// State size.
    pub t: usize,
}

impl core::default::Default for Poseidon2Params {
    /// Eight full rounds, 56 partial rounds, state size two.
    fn default() -> (r: Poseidon2Params)
        ensures
            r.r_f == 8,
            r.r_p == 56,
            r.t == 2,
    {
        Poseidon2Params { r_f: 8, r_p: 56, t: 2 }
    }
}

} // verus!
