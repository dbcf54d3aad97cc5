use p3_air::check_all_constraints;
use p3_keccak_air::KeccakAir;
use p3_koala_bear::KoalaBear;
use p3_matrix::dense::RowMajorMatrix;
use zkbench::trace::{
    generate_trace_from_message, SpongeTrace, A_PRIME_START, NUM_KECCAK_COLS, TOTAL_COLS,
};

fn sample_message(len: usize) -> Vec<u8> {
    (0..len).map(|i| (i % 251) as u8).collect()
}

/// The first 2633 columns of every row, as the column-truncating view the
/// permutation sub-AIR is evaluated over.
fn perm_columns(trace: &SpongeTrace) -> RowMajorMatrix<KoalaBear> {
    let mut values = Vec::with_capacity(trace.height * NUM_KECCAK_COLS);
    for r in 0..trace.height {
        for c in 0..NUM_KECCAK_COLS {
            values.push(KoalaBear::new(trace.values[r * TOTAL_COLS + c] as u32));
        }
    }
    RowMajorMatrix::new(values, NUM_KECCAK_COLS)
}

fn perm_air_accepts(trace: &SpongeTrace) -> bool {
    let main = perm_columns(trace);
    check_all_constraints(&KeccakAir {}, &main, &[], None).is_ok()
}

#[test]
fn layout_width_matches_sub_air() {
    assert_eq!(p3_keccak_air::NUM_KECCAK_COLS, NUM_KECCAK_COLS);
}

#[test]
fn honest_traces_satisfy_permutation_sub_air() {
    for len in [0usize, 1, 135, 136, 1024] {
        let msg = sample_message(len);
        let (trace, _limbs) =
            generate_trace_from_message(&msg).expect("honest generation must succeed");
        assert!(perm_air_accepts(&trace), "sub-AIR rejected length {}", len);
    }
}

#[test]
fn corrupted_permutation_column_violates_sub_air() {
    let msg = sample_message(64);
    let (mut trace, _limbs) =
        generate_trace_from_message(&msg).expect("honest generation must succeed");
    assert!(perm_air_accepts(&trace));
    // flip one a_prime bit on the first row: the theta equations break
    let col = A_PRIME_START + 7;
    trace.values[col] = 1 - trace.values[col] % 2;
    assert!(!perm_air_accepts(&trace));
}
