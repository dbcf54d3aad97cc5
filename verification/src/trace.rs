//! The dense execution trace of the Keccak-256 sponge: the permutation
//! sub-AIR's columns, produced by its own trace builder, followed by the
//! sponge bookkeeping columns.
use vstd::prelude::*;

use crate::sponge::{
    keccak256_reference, keccak256_spec, keccak_pad10star1, num_blocks, padded_msg,
    perm_input_state, perm_output_state, sponge_digest,
};

verus! {

/// Column count of the permutation sub-AIR (its row layout: 24 step flags,
/// one export flag, 100 preimage limbs, 100 state limbs, 320 `c` bits,
/// 320 `c'` bits, 1600 `a'` bits, 100 `a''` limbs, 64 bits of `a''[0,0]`
/// and 4 limbs of `a'''[0,0]`).
pub const NUM_KECCAK_COLS: usize = 2633;

/// First of the 24 round-indicator columns inside the sub-AIR's region.
pub const STEP_FLAGS_START: usize = 0;
/// `c[x][z]` lives at `C_START + x * 64 + z`.
pub const C_START: usize = 225;
/// `c'[x][z]` lives at `C_PRIME_START + x * 64 + z`.
pub const C_PRIME_START: usize = 545;
/// `a'[y][x][z]` lives at `A_PRIME_START + y * 320 + x * 64 + z`.
pub const A_PRIME_START: usize = 865;
/// `a''[y][x][limb]` lives at `A_PRIME_PRIME_START + y * 20 + x * 4 + limb`.
pub const A_PRIME_PRIME_START: usize = 2465;
/// The four 16-bit limbs of `a'''[0,0]` (after the round constant).
pub const A_PPP_00_LIMBS_START: usize = 2629;

/// Flag column: 1 exactly on the final round row of the final real block.
pub const HASH_END_IDX: usize = 2633;
/// Flag column: 0 up to and including the hash-end row, 1 afterward.
pub const SEEN_END_IDX: usize = 2634;
/// Flag column: 1 up to and including the hash-end row, 0 afterward.
pub const ACTIVE_IDX: usize = 2635;
/// First of the 1088 cached rate-input bit columns.
pub const BLOCK_BITS_START: usize = 2636;
/// First of the 1600 cached permutation-output bit columns.
pub const OUT_BITS_START: usize = 3724;
/// Full trace width: sub-AIR columns plus the sponge extras.
pub const TOTAL_COLS: usize = 5324;

/// Order of the prime field the trace is committed over.
pub const FIELD_PRIME: u64 = 0x7f000001;

/// Largest message length the generator accepts, a bound that keeps every
/// index computation inside `usize`.
pub const MAX_MESSAGE_BYTES: usize = 0x0400_0000;

/// The smallest power of two that is at least `n` (and at least 1).
pub open spec fn next_pow2(n: nat) -> nat
    decreases n,
{
    if n <= 1 {
        1
    } else {
        2 * next_pow2(((n + 1) / 2) as nat)
    }
}

pub proof fn lemma_next_pow2_ge(n: nat)
    ensures
        next_pow2(n) >= n,
        next_pow2(n) >= 1,
    decreases n,
{
    if n > 1 {
        lemma_next_pow2_ge(((n + 1) / 2) as nat);
    }
}

pub proof fn lemma_next_pow2_le(n: nat)
    requires
        n >= 2,
    ensures
        next_pow2(n) <= 2 * n - 2,
    decreases n,
{
    let c = ((n + 1) / 2) as nat;
    assert(2 * c <= n + 1);
    if c >= 2 {
        lemma_next_pow2_le(c);
    } else {
        assert(c == 1);
        assert(next_pow2(1) == 1);
        assert(n == 2);
    }
}

proof fn lemma_next_pow2_fixed_not_div3(n: nat)
    requires
        next_pow2(n) == n,
    ensures
        n % 3 != 0,
    decreases n,
{
    if n <= 1 {
        assert(n == 1);
    } else {
        let c = ((n + 1) / 2) as nat;
        assert(n == 2 * next_pow2(c));
        assert(n % 2 == 0);
        assert(c == n / 2);
        let m = (n / 2) as nat;
        assert(next_pow2(m) == m);
        lemma_next_pow2_fixed_not_div3(m);
        if n % 3 == 0 {
            assert((2 * m) % 3 == (2 * (m % 3)) % 3) by {
                vstd::arithmetic::div_mod::lemma_mul_mod_noop_right(2, m as int, 3);
            }
            vstd::arithmetic::div_mod::lemma_mod_bound(m as int, 3);
            assert(false);
        }
    }
}

/// A positive multiple of three is never a power of two, so rounding one up
/// to a power of two strictly grows it.
pub proof fn lemma_next_pow2_gt_multiple_of_3(n: nat)
    requires
        n >= 2,
        n % 3 == 0,
    ensures
        next_pow2(n) > n,
{
    lemma_next_pow2_ge(n);
    if next_pow2(n) == n {
        lemma_next_pow2_fixed_not_div3(n);
    }
}

/// Bit `i` of the 1088-bit rate portion of block `b` of the padded message,
/// little-endian within each byte.
pub open spec fn block_bit(p: Seq<u8>, b: int, i: int) -> u8 {
    (p[b * 136 + i / 8] >> ((i % 8) as u8)) & 1
}

/// Bit `z` of lane value `v`.
pub open spec fn lane_bit(v: u64, z: int) -> u64 {
    (v >> (z as u64)) & 1
}

/// The 1088 rate bits of block `b`, one byte-sized 0/1 value each.
pub fn rate_block_bits(padded: &Vec<u8>, b: usize, nb: usize) -> (r: Vec<u8>)
    requires
        padded@.len() == 136 * nb,
        136 * nb <= usize::MAX,
        b < nb,
    ensures
        r@.len() == 1088,
        forall|i: int| 0 <= i < 1088 ==> r@[i] == block_bit(padded@, b as int, i),
        forall|i: int| 0 <= i < 1088 ==> r@[i] <= 1,
{
    let mut out: Vec<u8> = Vec::new();
    let mut i: usize = 0;
    while i < 1088
        invariant
            padded@.len() == 136 * nb,
            136 * nb <= usize::MAX,
            b < nb,
            i <= 1088,
            out@.len() == i,
            forall|k: int| 0 <= k < i ==> out@[k] == block_bit(padded@, b as int, k),
            forall|k: int| 0 <= k < i ==> out@[k] <= 1,
        decreases 1088 - i,
    {
        proof {
            vstd::arithmetic::mul::lemma_mul_inequality(b + 1, nb as int, 136);
        }
        let byte = padded[b * 136 + i / 8];
        let bit = (byte >> ((i % 8) as u8)) & 1;
        proof {
            let sh = ((i % 8) as u8);
            assert((byte >> sh) & 1 <= 1) by (bit_vector);
        }
        out.push(bit);
        i += 1;
    }
    out
}

/// The 1600 bits of a 25-lane state, lane by lane, little-endian.
pub fn state_bits_le(state: &Vec<u64>) -> (r: Vec<u64>)
    requires
        state@.len() == 25,
    ensures
        r@.len() == 1600,
        forall|i: int| 0 <= i < 1600 ==> r@[i] == lane_bit(state@[i / 64], i % 64),
        forall|i: int| 0 <= i < 1600 ==> r@[i] <= 1,
{
    let mut out: Vec<u64> = Vec::new();
    let mut i: usize = 0;
    while i < 1600
        invariant
            state@.len() == 25,
            i <= 1600,
            out@.len() == i,
            forall|k: int| 0 <= k < i ==> out@[k] == lane_bit(state@[k / 64], k % 64),
            forall|k: int| 0 <= k < i ==> out@[k] <= 1,
        decreases 1600 - i,
    {
        let v = state[i / 64];
        let bit = (v >> ((i % 64) as u64)) & 1;
        proof {
            let sh = ((i % 64) as u64);
            assert((v >> sh) & 1 <= 1) by (bit_vector);
        }
        out.push(bit);
        i += 1;
    }
    out
}

/// What the permutation sub-AIR's trace builder returns on a list of 25-lane
/// permutation inputs, as one row-major sequence of canonical field values.
pub uninterp spec fn perm_trace_cells(inputs: Seq<Seq<u64>>) -> Seq<u64>;

/// Relies on p3_keccak_air::generate_trace_rows: 24 rows of 2633 columns per
/// permutation input, padded with further rows to the next power of two; the
/// cells depend on the inputs alone and are canonical KoalaBear values, and
/// each row's 24 round-indicator columns hold a one exactly at the row's
/// round index (rows are generated in 24-round chunks, padding included).
#[verifier::external_body]
pub(crate) fn keccak_perm_trace(inputs: &Vec<Vec<u64>>) -> (r: (Vec<u64>, usize))
    requires
        inputs@.len() >= 1,
        forall|b: int| 0 <= b < inputs@.len() ==> (#[trigger] inputs@[b])@.len() == 25,
    ensures
        r.0@ == perm_trace_cells(inputs@.map_values(|v: Vec<u64>| v@)),
        r.1 == next_pow2((24 * inputs@.len()) as nat),
        r.0@.len() == r.1 * 2633,
        forall|i: int| 0 <= i < r.0@.len() ==> r.0@[i] < 0x7f000001,
        forall|rr: int, i: int|
            0 <= rr < r.1 && 0 <= i < 24 ==> (#[trigger] r.0@[rr * 2633 + i]) == (if i == rr
                % 24 {
                1u64
            } else {
                0u64
            }),
{
    let ins: std::vec::Vec<[u64; 25]> = inputs
        .iter()
        .map(|v| v.as_slice().try_into().expect("each state has 25 lanes"))
        .collect();
    let m = p3_keccak_air::generate_trace_rows::<p3_koala_bear::KoalaBear>(ins, 0);
    let h = p3_matrix::Matrix::height(&m);
    let vals = m.values.iter().map(|x| p3_field::PrimeField64::as_canonical_u64(x)).collect();
    (vals, h)
}

/// A full sponge trace: `height` rows of [`TOTAL_COLS`] field values each,
/// row-major.
pub struct SpongeTrace {
    /// The cells, row-major.
    pub values: Vec<u64>,
    /// Number of rows, a power of two.
    pub height: usize,
}

impl SpongeTrace {
    /// The matrix has exactly `height * TOTAL_COLS` cells, all canonical
    /// field values.
    pub open spec fn wf(self) -> bool {
        &&& self.values@.len() == self.height * 5324
        &&& forall|i: int| 0 <= i < self.values@.len() ==> self.values@[i] < 0x7f000001
    }

    /// Cell at row `r`, column `c`.
    pub open spec fn spec_cell(self, r: int, c: int) -> u64 {
        self.values@[r * 5324 + c]
    }

    /// The `hash_end` flag of row `r`.
    pub fn hash_end(&self, r: usize) -> (v: u64)
        requires
            self.wf(),
            r < self.height,
        ensures
            v == self.spec_cell(r as int, 2633),
    {
        self.cell(r, HASH_END_IDX)
    }

    /// The `seen_end` flag of row `r`.
    pub fn seen_end(&self, r: usize) -> (v: u64)
        requires
            self.wf(),
            r < self.height,
        ensures
            v == self.spec_cell(r as int, 2634),
    {
        self.cell(r, SEEN_END_IDX)
    }

    /// The `active` flag of row `r`.
    pub fn active(&self, r: usize) -> (v: u64)
        requires
            self.wf(),
            r < self.height,
        ensures
            v == self.spec_cell(r as int, 2635),
    {
        self.cell(r, ACTIVE_IDX)
    }

    /// Read one cell.
    pub fn cell(&self, r: usize, c: usize) -> (v: u64)
        requires
            self.wf(),
            r < self.height,
            c < TOTAL_COLS,
        ensures
            v == self.spec_cell(r as int, c as int),
            v < 0x7f000001,
    {
        let total = self.values.len();
        proof {
            assert(r * 5324 + c < total) by {
                vstd::arithmetic::mul::lemma_mul_inequality(r + 1, self.height as int, 5324);
            }
        }
        self.values[r * 5324 + c]
    }
}

/// Why trace generation was aborted.
#[derive(Clone, Copy, Debug, PartialEq, Eq, Structural)]
pub enum TraceError {
    /// The simulated sponge digest disagrees with the reference digest.
    DigestMismatch,
    /// The permutation sub-AIR allocated fewer rows than the hash-end row.
    TraceTooShort,
}

/// The per-block permutation inputs of an honest absorption of `m`.
pub open spec fn honest_perm_inputs(m: Seq<u8>) -> Seq<Seq<u64>> {
    Seq::new(num_blocks(m.len()) as nat, |b: int| perm_input_state(padded_msg(m), b))
}

/// Row index of the final round of the final real permutation block.
pub open spec fn hash_end_row(m: Seq<u8>) -> int {
    24 * num_blocks(m.len()) - 1
}

/// The value an honest trace for message `m` holds at row `r`, column `c`.
pub open spec fn spec_trace_cell(m: Seq<u8>, r: int, c: int) -> u64 {
    let p = padded_msg(m);
    let nb = num_blocks(m.len()) as int;
    let he = hash_end_row(m);
    if c < 2633 {
        perm_trace_cells(honest_perm_inputs(m))[r * 2633 + c]
    } else if c == 2633 {
        if r == he {
            1
        } else {
            0
        }
    } else if c == 2634 {
        if r > he {
            1
        } else {
            0
        }
    } else if c == 2635 {
        if r <= he {
            1
        } else {
            0
        }
    } else if c < 3724 {
        if r / 24 < nb {
            block_bit(p, r / 24, c - 2636) as u64
        } else {
            0
        }
    } else {
        if r % 24 == 23 && r / 24 < nb {
            lane_bit(perm_output_state(p, r / 24)[(c - 3724) / 64], (c - 3724) % 64)
        } else {
            0
        }
    }
}

/// The trace is exactly the one the generator owes for message `m`: the
/// permutation sub-AIR's columns copied unchanged, and every sponge
/// bookkeeping column as the algorithm prescribes.
pub open spec fn honest_trace(t: SpongeTrace, m: Seq<u8>) -> bool {
    &&& t.wf()
    &&& t.height == next_pow2((24 * num_blocks(m.len())) as nat)
    &&& hash_end_row(m) < t.height
    &&& forall|r: int, c: int|
        0 <= r < t.height && 0 <= c < 5324 ==> t.spec_cell(r, c) == spec_trace_cell(m, r, c)
    &&& forall|r: int, i: int|
        0 <= r < t.height && 0 <= i < 24 ==> (#[trigger] t.spec_cell(r, i)) == (if i == r % 24 {
            1u64
        } else {
            0u64
        })
}

/// Byte-sequence equality.
pub fn bytes_eq(a: &Vec<u8>, b: &Vec<u8>) -> (r: bool)
    ensures
        r <==> a@ == b@,
{
    if a.len() != b.len() {
        return false;
    }
    let mut i: usize = 0;
    while i < a.len()
        invariant
            a@.len() == b@.len(),
            i <= a@.len(),
            forall|j: int| 0 <= j < i ==> a@[j] == b@[j],
        decreases a@.len() - i,
    {
        if a[i] != b[i] {
            return false;
        }
        i += 1;
    }
    proof {
        assert(a@ =~= b@);
    }
    true
}

/// Append `n` zero cells.
fn push_zero_cells(values: &mut Vec<u64>, n: usize)
    ensures
        final(values)@.len() == old(values)@.len() + n,
        forall|j: int|
            0 <= j < old(values)@.len() ==> final(values)@[j] == old(values)@[j],
        forall|j: int|
            old(values)@.len() <= j < final(values)@.len() ==> final(values)@[j] == 0u64,
{
    let mut i: usize = 0;
    while i < n
        invariant
            values@.len() == old(values)@.len() + i,
            i <= n,
            forall|j: int| 0 <= j < old(values)@.len() ==> values@[j] == old(values)@[j],
            forall|j: int| old(values)@.len() <= j < values@.len() ==> values@[j] == 0u64,
        decreases n - i,
    {
        values.push(0u64);
        i += 1;
    }
}

/// Append row `r` of the permutation sub-AIR's flat trace.
fn push_perm_row(values: &mut Vec<u64>, perm_flat: &Vec<u64>, r: usize, height: usize)
    requires
        perm_flat@.len() == height * 2633,
        r < height,
    ensures
        final(values)@.len() == old(values)@.len() + 2633,
        forall|j: int|
            0 <= j < old(values)@.len() ==> final(values)@[j] == old(values)@[j],
        forall|j: int|
            0 <= j < 2633 ==> #[trigger] final(values)@[old(values)@.len() + j] == perm_flat@[r
                * 2633 + j],
{
    proof {
        vstd::arithmetic::mul::lemma_mul_inequality(r + 1, height as int, 2633);
    }
    let n = perm_flat.len();
    let mut c: usize = 0;
    while c < 2633
        invariant
            perm_flat@.len() == height * 2633,
            perm_flat@.len() <= usize::MAX,
            r < height,
            (r + 1) * 2633 <= perm_flat@.len(),
            c <= 2633,
            values@.len() == old(values)@.len() + c,
            forall|j: int| 0 <= j < old(values)@.len() ==> values@[j] == old(values)@[j],
            forall|j: int|
                0 <= j < c ==> #[trigger] values@[old(values)@.len() + j] == perm_flat@[r * 2633
                    + j],
        decreases 2633 - c,
    {
        values.push(perm_flat[r * 2633 + c]);
        c += 1;
    }
}

/// Append a 0/1 bit column segment, widening each bit to a field value.
fn push_bit_cells_u8(values: &mut Vec<u64>, bits: &Vec<u8>)
    requires
        forall|i: int| 0 <= i < bits@.len() ==> bits@[i] <= 1,
    ensures
        final(values)@.len() == old(values)@.len() + bits@.len(),
        forall|j: int|
            0 <= j < old(values)@.len() ==> final(values)@[j] == old(values)@[j],
        forall|j: int|
            0 <= j < bits@.len() ==> final(values)@[old(values)@.len() + j] == bits@[j] as u64,
{
    let mut i: usize = 0;
    while i < bits.len()
        invariant
            forall|k: int| 0 <= k < bits@.len() ==> bits@[k] <= 1,
            i <= bits@.len(),
            values@.len() == old(values)@.len() + i,
            forall|j: int| 0 <= j < old(values)@.len() ==> values@[j] == old(values)@[j],
            forall|j: int|
                0 <= j < i ==> values@[old(values)@.len() + j] == bits@[j] as u64,
        decreases bits@.len() - i,
    {
        values.push(bits[i] as u64);
        i += 1;
    }
}

/// Generate the full sponge trace and the 16 public digest limbs for one
/// message: pad, absorb block by block, self-check the squeezed digest
/// against the reference hash, delegate the permutation columns to the
/// permutation sub-AIR's trace builder, and populate the sponge columns.
///
/// Returns `Ok` exactly when the simulated sponge digest equals the
/// reference Keccak-256 digest of the message; the returned limbs are then
/// the little-endian 16-bit limbs of that digest, and the trace is the
/// honest trace of the message, cell for cell.
pub fn generate_trace_from_message(msg: &Vec<u8>) -> (r: Result<
    (SpongeTrace, Vec<u16>),
    TraceError,
>)
    requires
        msg@.len() <= MAX_MESSAGE_BYTES,
    ensures
        r is Ok <==> sponge_digest(padded_msg(msg@), num_blocks(msg@.len()) as int)
            == keccak256_spec(msg@),
        r is Err ==> r->Err_0 == TraceError::DigestMismatch,
        r is Ok ==> honest_trace(r->Ok_0.0, msg@),
        r is Ok ==> (r->Ok_0.1)@.len() == 16,
        r is Ok ==> forall|i: int|
            0 <= i < 16 ==> (r->Ok_0.1)@[i] == crate::sponge::digest_limb(
                keccak256_spec(msg@),
                i,
            ),
{
    let ghost m = msg@;
    let padded = keccak_pad10star1(msg.clone());
    let ghost p = padded@;
    let nb = padded.len() / 136;
    proof {
        vstd::arithmetic::div_mod::lemma_div_multiples_vanish(num_blocks(m.len()) as int, 136);
        assert(nb == num_blocks(m.len()));
        crate::sponge::lemma_padded_len(m);
        vstd::arithmetic::div_mod::lemma_mod_bound((m.len() + 1) as int, 136);
        if nb > 0x80000 {
            vstd::arithmetic::mul::lemma_mul_inequality(0x80001, nb as int, 136);
            assert(false);
        }
    }
    let run = crate::sponge::absorb_padded(&padded, nb);
    let digest = crate::sponge::squeeze_digest(&run.perm_outputs[nb - 1]);
    let reference = keccak256_reference(msg);
    proof {
        assert(digest@ =~= sponge_digest(p, nb as int));
    }
    if !bytes_eq(&digest, &reference) {
        return Err(TraceError::DigestMismatch);
    }
    let limbs = crate::sponge::digest_to_u16_limbs_le(&reference);
    let (perm_flat, height) = keccak_perm_trace(&run.perm_inputs);
    proof {
        assert(run.perm_inputs@.map_values(|v: Vec<u64>| v@) =~= honest_perm_inputs(m));
        lemma_next_pow2_ge((24 * nb) as nat);
        lemma_next_pow2_le((24 * nb) as nat);
    }
    let he = nb * 24 - 1;
    if he >= height {
        return Err(TraceError::TraceTooShort);
    }
    let pflen = perm_flat.len();

    // Per-block caches of the rate-input bits and the output-state bits.
    let mut block_bits_all: Vec<Vec<u8>> = Vec::new();
    let mut b0: usize = 0;
    while b0 < nb
        invariant
            padded@ == p,
            p.len() == 136 * nb,
            136 * nb <= usize::MAX,
            b0 <= nb,
            block_bits_all@.len() == b0,
            forall|bb: int|
                0 <= bb < b0 ==> (#[trigger] block_bits_all@[bb])@.len() == 1088,
            forall|bb: int, i: int|
                0 <= bb < b0 && 0 <= i < 1088 ==> (#[trigger] block_bits_all@[bb]@[i])
                    == block_bit(p, bb, i),
            forall|bb: int, i: int|
                0 <= bb < b0 && 0 <= i < 1088 ==> block_bits_all@[bb]@[i] <= 1,
        decreases nb - b0,
    {
        block_bits_all.push(rate_block_bits(&padded, b0, nb));
        b0 += 1;
    }
    let mut out_bits_all: Vec<Vec<u64>> = Vec::new();
    let mut b1: usize = 0;
    while b1 < nb
        invariant
            crate::sponge::sponge_run_wf(run, p, nb as int),
            b1 <= nb,
            out_bits_all@.len() == b1,
            forall|bb: int| 0 <= bb < b1 ==> (#[trigger] out_bits_all@[bb])@.len() == 1600,
            forall|bb: int, i: int|
                0 <= bb < b1 && 0 <= i < 1600 ==> (#[trigger] out_bits_all@[bb]@[i]) == lane_bit(
                    perm_output_state(p, bb)[i / 64],
                    i % 64,
                ),
            forall|bb: int, i: int|
                0 <= bb < b1 && 0 <= i < 1600 ==> out_bits_all@[bb]@[i] <= 1,
        decreases nb - b1,
    {
        out_bits_all.push(state_bits_le(&run.perm_outputs[b1]));
        b1 += 1;
    }

    // Assemble the trace row by row.
    let mut values: Vec<u64> = Vec::new();
    let mut r: usize = 0;
    while r < height
        invariant
            nb == num_blocks(m.len()),
            p == padded_msg(m),
            1 <= nb <= 0x80000,
            he == 24 * nb - 1,
            height == next_pow2((24 * nb) as nat),
            he < height,
            height <= 48 * nb,
            perm_flat@ == perm_trace_cells(honest_perm_inputs(m)),
            perm_flat@.len() == height * 2633,
            pflen == perm_flat@.len(),
            forall|i: int| 0 <= i < perm_flat@.len() ==> perm_flat@[i] < 0x7f000001,
            forall|rr: int, i: int|
                0 <= rr < height && 0 <= i < 24 ==> (#[trigger] perm_flat@[rr * 2633 + i]) == (
                if i == rr % 24 {
                    1u64
                } else {
                    0u64
                }),
            block_bits_all@.len() == nb,
            forall|bb: int|
                0 <= bb < nb ==> (#[trigger] block_bits_all@[bb])@.len() == 1088,
            forall|bb: int, i: int|
                0 <= bb < nb && 0 <= i < 1088 ==> (#[trigger] block_bits_all@[bb]@[i])
                    == block_bit(p, bb, i),
            forall|bb: int, i: int|
                0 <= bb < nb && 0 <= i < 1088 ==> block_bits_all@[bb]@[i] <= 1,
            out_bits_all@.len() == nb,
            forall|bb: int| 0 <= bb < nb ==> (#[trigger] out_bits_all@[bb])@.len() == 1600,
            forall|bb: int, i: int|
                0 <= bb < nb && 0 <= i < 1600 ==> (#[trigger] out_bits_all@[bb]@[i]) == lane_bit(
                    perm_output_state(p, bb)[i / 64],
                    i % 64,
                ),
            forall|bb: int, i: int|
                0 <= bb < nb && 0 <= i < 1600 ==> out_bits_all@[bb]@[i] <= 1,
            r <= height,
            values@.len() == r * 5324,
            forall|rr: int, cc: int|
                0 <= rr < r && 0 <= cc < 5324 ==> #[trigger] values@[rr * 5324 + cc]
                    == spec_trace_cell(m, rr, cc),
            forall|i: int| 0 <= i < values@.len() ==> values@[i] < 0x7f000001,
        decreases height - r,
    {
        let ghost base = values@.len() as int;
        let b = r / 24;
        push_perm_row(&mut values, &perm_flat, r, height);
        let flag_he: u64 = if r == he {
            1
        } else {
            0
        };
        let flag_se: u64 = if r > he {
            1
        } else {
            0
        };
        let flag_ac: u64 = if r <= he {
            1
        } else {
            0
        };
        values.push(flag_he);
        values.push(flag_se);
        values.push(flag_ac);
        if b < nb {
            push_bit_cells_u8(&mut values, &block_bits_all[b]);
        } else {
            push_zero_cells(&mut values, 1088);
        }
        if r % 24 == 23 && b < nb {
            push_bit_cells_u64(&mut values, &out_bits_all[b]);
        } else {
            push_zero_cells(&mut values, 1600);
        }
        proof {
            assert(values@.len() == base + 5324);
            assert forall|cc: int| 0 <= cc < 5324 implies values@[base + cc] == spec_trace_cell(
                m,
                r as int,
                cc,
            ) && values@[base + cc] < 0x7f000001 by {
                if cc < 2633 {
                    assert(values@[base + cc] == perm_flat@[r * 2633 + cc]);
                } else if cc < 2636 {
                    assert(values@[base + cc] == if cc == 2633 {
                        flag_he
                    } else if cc == 2634 {
                        flag_se
                    } else {
                        flag_ac
                    });
                } else if cc < 3724 {
                    let i = cc - 2636;
                    if r / 24 < nb {
                        assert(values@[base + 2636 + i] == block_bits_all@[b as int]@[i] as u64);
                    } else {
                        assert(values@[base + 2636 + i] == 0u64);
                    }
                } else {
                    let i = cc - 3724;
                    if r % 24 == 23 && r / 24 < nb {
                        assert(values@[base + 3724 + i] == out_bits_all@[b as int]@[i]);
                    } else {
                        assert(values@[base + 3724 + i] == 0u64);
                    }
                }
            }
            assert forall|i: int| 0 <= i < values@.len() implies values@[i] < 0x7f000001 by {
                if base <= i {
                    let cc = i - base;
                    assert(values@[base + cc] == spec_trace_cell(m, r as int, cc));
                    assert(values@[base + cc] < 0x7f000001);
                }
            }
            assert forall|rr: int, cc: int|
                0 <= rr < r + 1 && 0 <= cc < 5324 implies #[trigger] values@[rr * 5324 + cc]
                == spec_trace_cell(m, rr, cc) by {
                if rr < r {
                    assert(values@[rr * 5324 + cc] == spec_trace_cell(m, rr, cc));
                } else {
                    assert(rr * 5324 + cc == base + cc);
                    assert(values@[base + cc] == spec_trace_cell(m, rr, cc));
                }
            }
        }
        r += 1;
    }
    let trace = SpongeTrace { values, height };
    proof {
        assert(trace.wf());
        assert forall|rr: int, cc: int|
            0 <= rr < trace.height && 0 <= cc < 5324 implies trace.spec_cell(rr, cc)
            == spec_trace_cell(m, rr, cc) by {
            assert(trace.values@[rr * 5324 + cc] == spec_trace_cell(m, rr, cc));
        }
        assert forall|rr: int, i: int|
            0 <= rr < trace.height && 0 <= i < 24 implies trace.spec_cell(rr, i) == (if i == rr
            % 24 {
            1u64
        } else {
            0u64
        }) by {
            assert(trace.spec_cell(rr, i) == spec_trace_cell(m, rr, i));
            assert(spec_trace_cell(m, rr, i) == perm_trace_cells(honest_perm_inputs(m))[rr * 2633
                + i]);
            assert(perm_flat@[rr * 2633 + i] == (if i == rr % 24 {
                1u64
            } else {
                0u64
            }));
        }
        assert(honest_trace(trace, m));
    }
    Ok((trace, limbs))
}

/// The message the seeded benchmark entry draws for a given size: the
/// standard generator's byte stream under the size as both seed and length.
pub open spec fn drawn_message(input_size: usize) -> Seq<u8> {
    crate::inputs::std_rng_bytes(input_size as u64, input_size as int)
}

/// Generate a trace for Keccak-256 over a single pseudo-random message of
/// `input_size` bytes, seeded by the length to keep benchmarks stable.
///
/// Returns the full trace matrix (permutation sub-AIR columns plus the
/// sponge extras) and the public digest as 16 little-endian 16-bit limbs:
/// the call returns `Ok` exactly when the drawn message's simulated sponge
/// digest equals its reference digest, and on `Ok` the trace and limbs are
/// that message's honest trace and digest limbs.
pub fn generate_trace_and_public_digest_limbs(input_size: usize) -> (r: Result<
    (SpongeTrace, Vec<u16>),
    TraceError,
>)
    requires
        input_size <= MAX_MESSAGE_BYTES,
    ensures
        r is Ok <==> sponge_digest(
            padded_msg(drawn_message(input_size)),
            num_blocks(drawn_message(input_size).len()) as int,
        ) == keccak256_spec(drawn_message(input_size)),
        r is Ok ==> honest_trace(r->Ok_0.0, drawn_message(input_size)),
        r is Ok ==> (r->Ok_0.1)@ == Seq::new(
            16,
            |i: int| crate::sponge::digest_limb(keccak256_spec(drawn_message(input_size)), i),
        ),
        r is Err ==> r->Err_0 == TraceError::DigestMismatch,
{
    let (msg, _digest) = crate::inputs::generate_keccak_input(input_size);
    let out = generate_trace_from_message(&msg);
    proof {
        if out is Ok {
            assert((out->Ok_0.1)@ =~= Seq::new(
                16,
                |i: int| crate::sponge::digest_limb(keccak256_spec(msg@), i),
            ));
        }
    }
    out
}

/// The hash-end row of an honest trace sits after the first permutation's
/// rows and strictly before the last row: the row count is the next power
/// of two above a positive multiple of 24, which always rounds up.
pub proof fn lemma_hash_end_row_bounds(t: SpongeTrace, m: Seq<u8>)
    requires
        honest_trace(t, m),
    ensures
        23 <= hash_end_row(m),
        hash_end_row(m) <= t.height - 2,
{
    crate::sponge::lemma_padded_len(m);
    let nb = num_blocks(m.len());
    assert(24 * nb == (8 * nb) * 3);
    assert((24 * nb) % 3 == 0) by {
        vstd::arithmetic::div_mod::lemma_mod_multiples_basic((8 * nb) as int, 3);
    }
    lemma_next_pow2_gt_multiple_of_3((24 * nb) as nat);
}

/// Sum of the `hash_end` column over the first `upto` rows.
pub open spec fn hash_end_sum(t: SpongeTrace, upto: int) -> int
    decreases upto,
{
    if upto <= 0 {
        0
    } else {
        hash_end_sum(t, upto - 1) + t.spec_cell(upto - 1, 2633)
    }
}

proof fn lemma_hash_end_sum_prefix(t: SpongeTrace, m: Seq<u8>, k: int)
    requires
        honest_trace(t, m),
        0 <= k <= t.height,
    ensures
        hash_end_sum(t, k) == if k > hash_end_row(m) {
            1int
        } else {
            0int
        },
    decreases k,
{
    crate::sponge::lemma_padded_len(m);
    if k > 0 {
        lemma_hash_end_sum_prefix(t, m, k - 1);
        assert(t.spec_cell(k - 1, 2633) == spec_trace_cell(m, k - 1, 2633));
    }
}

/// Uniqueness of `hash_end`: over every honest trace the `hash_end` column
/// sums to exactly one.
pub proof fn lemma_hash_end_unique(t: SpongeTrace, m: Seq<u8>)
    requires
        honest_trace(t, m),
    ensures
        hash_end_sum(t, t.height as int) == 1,
{
    crate::sponge::lemma_padded_len(m);
    lemma_hash_end_sum_prefix(t, m, t.height as int);
}

/// Monotonic flags: in an honest trace, between every pair of consecutive
/// rows `active` never increases and `seen_end` never decreases.
pub proof fn lemma_flags_monotone(t: SpongeTrace, m: Seq<u8>, r: int)
    requires
        honest_trace(t, m),
        0 <= r < t.height - 1,
    ensures
        t.spec_cell(r, 2635) >= t.spec_cell(r + 1, 2635),
        t.spec_cell(r, 2634) <= t.spec_cell(r + 1, 2634),
{
    assert(t.spec_cell(r, 2635) == spec_trace_cell(m, r, 2635));
    assert(t.spec_cell(r + 1, 2635) == spec_trace_cell(m, r + 1, 2635));
    assert(t.spec_cell(r, 2634) == spec_trace_cell(m, r, 2634));
    assert(t.spec_cell(r + 1, 2634) == spec_trace_cell(m, r + 1, 2634));
}

/// Append a 0/1 bit column segment given as field values.
fn push_bit_cells_u64(values: &mut Vec<u64>, bits: &Vec<u64>)
    ensures
        final(values)@.len() == old(values)@.len() + bits@.len(),
        forall|j: int|
            0 <= j < old(values)@.len() ==> final(values)@[j] == old(values)@[j],
        forall|j: int|
            0 <= j < bits@.len() ==> final(values)@[old(values)@.len() + j] == bits@[j],
{
    let mut i: usize = 0;
    while i < bits.len()
        invariant
            i <= bits@.len(),
            values@.len() == old(values)@.len() + i,
            forall|j: int| 0 <= j < old(values)@.len() ==> values@[j] == old(values)@[j],
            forall|j: int| 0 <= j < i ==> values@[old(values)@.len() + j] == bits@[j],
        decreases bits@.len() - i,
    {
        values.push(bits[i]);
        i += 1;
    }
}

} // verus!
