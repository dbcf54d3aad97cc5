//! The sponge constraint evaluator: the algebraic constraints layered on top
//! of the permutation sub-AIR's columns, evaluated numerically over one row
//! and its successor.  A trace is accepted exactly when every constraint
//! value of every row is zero; the permutation sub-AIR's own round
//! constraints are enforced separately by the proving backend over the same
//! first 2633 columns.
//!
//! The constraint formulas index rows directly, following the layout of
//! [`crate::trace`]: column 0 is the first-round step flag and column 23 the
//! final-round step flag of the sub-AIR; 225, 545 and 865 start its `c`,
//! `c'` and `a'` bit regions; 2465 its `a''` limbs and 2629 the four
//! round-constant-adjusted limbs of lane (0,0); 2633, 2634 and 2635 are
//! `hash_end`, `seen_end` and `active`; 2636 starts the cached block bits
//! and 3724 the cached output bits.
use vstd::prelude::*;

use crate::trace::SpongeTrace;

verus! {

/// The field order, as in [`crate::trace::FIELD_PRIME`].
pub const P: u64 = 0x7f000001;

/// Field addition of canonical values.
pub open spec fn fadd(a: u64, b: u64) -> u64 {
    ((a + b) % 0x7f000001) as u64
}

/// Field subtraction of canonical values (`b` at most the modulus).
pub open spec fn fsub(a: u64, b: u64) -> u64 {
    ((a + 0x7f000001 - b) % 0x7f000001) as u64
}

/// Field multiplication of canonical values.
pub open spec fn fmul(a: u64, b: u64) -> u64 {
    ((a * b) % 0x7f000001) as u64
}

/// Field addition.
pub fn field_add(a: u64, b: u64) -> (r: u64)
    requires
        a < P,
        b < P,
    ensures
        r == fadd(a, b),
        r < P,
{
    (a + b) % 0x7f000001
}

/// Field subtraction.
pub fn field_sub(a: u64, b: u64) -> (r: u64)
    requires
        a < P,
        b <= P,
    ensures
        r == fsub(a, b),
        r < P,
{
    (a + 0x7f000001 - b) % 0x7f000001
}

/// Field multiplication.
pub fn field_mul(a: u64, b: u64) -> (r: u64)
    requires
        a < P,
        b < P,
    ensures
        r == fmul(a, b),
        r < P,
{
    proof {
        vstd::arithmetic::mul::lemma_mul_upper_bound(a as int, 0x7f000000, b as int, 0x7f000000);
    }
    (a * b) % 0x7f000001
}

/// Booleanity constraint value: `x (x - 1)`.
pub open spec fn fbool(x: u64) -> u64 {
    fmul(x, fsub(x, 1))
}

/// Two-input XOR of boolean field values: `a + b - 2ab`.
pub open spec fn fxor2(a: u64, b: u64) -> u64 {
    fsub(fadd(a, b), fmul(2, fmul(a, b)))
}

/// Three-input XOR: `xor(xor(a, b), c)`.
pub open spec fn fxor3(a: u64, b: u64, c: u64) -> u64 {
    fxor2(fxor2(a, b), c)
}

/// Booleanity constraint, executable.
pub fn field_bool(x: u64) -> (r: u64)
    requires
        x < P,
    ensures
        r == fbool(x),
        r < P,
{
    field_mul(x, field_sub(x, 1))
}

/// Two-input XOR, executable.
pub fn field_xor2(a: u64, b: u64) -> (r: u64)
    requires
        a < P,
        b < P,
    ensures
        r == fxor2(a, b),
        r < P,
{
    field_sub(field_add(a, b), field_mul(2, field_mul(a, b)))
}

/// Three-input XOR, executable.
pub fn field_xor3(a: u64, b: u64, c: u64) -> (r: u64)
    requires
        a < P,
        b < P,
        c < P,
    ensures
        r == fxor3(a, b, c),
        r < P,
{
    field_xor2(field_xor2(a, b), c)
}

/// `fsub` is zero exactly on equal canonical values.
pub proof fn lemma_fsub_zero_iff(a: u64, b: u64)
    requires
        a < P,
        b < P,
    ensures
        (fsub(a, b) == 0) <==> (a == b),
{
    if a == b {
        assert((a + 0x7f000001 - b) == 0x7f000001);
    } else {
        let d = a + 0x7f000001 - b;
        assert(0 < d < 2 * 0x7f000001);
        assert(d != 0x7f000001);
        if d < 0x7f000001 {
            vstd::arithmetic::div_mod::lemma_small_mod(d as nat, 0x7f000001nat);
        } else {
            assert(d % 0x7f000001 == (d - 0x7f000001) % 0x7f000001) by {
                vstd::arithmetic::div_mod::lemma_mod_sub_multiples_vanish(d as int, 0x7f000001);
            }
            vstd::arithmetic::div_mod::lemma_small_mod((d - 0x7f000001) as nat, 0x7f000001nat);
        }
    }
}

/// Multiplying by one leaves a canonical value unchanged.
pub proof fn lemma_fmul_one(x: u64)
    requires
        x < P,
    ensures
        fmul(1, x) == x,
{
    vstd::arithmetic::div_mod::lemma_small_mod(x as nat, 0x7f000001nat);
}

/// The doubling powers of two used by the limb decomposition.
pub open spec fn pow2f(k: int) -> u64
    decreases k,
{
    if k <= 0 {
        1
    } else {
        fadd(pow2f(k - 1), pow2f(k - 1))
    }
}

/// The little-endian weighted field sum of the `n` output bits starting at
/// bit `base` of the row's output-bit columns.
pub open spec fn out_bits_acc(row: Seq<u64>, base: int, n: int) -> u64
    decreases n,
{
    if n <= 0 {
        0
    } else {
        fadd(out_bits_acc(row, base, n - 1), fmul(row[3724 + base + (n - 1)], pow2f(n - 1)))
    }
}

/// The 16-bit output limb `limb` of lane `(y, x)` as the permutation
/// sub-AIR exposes it: the special round-constant column for lane (0,0),
/// the `a''` column otherwise.
pub open spec fn spec_out_limb(row: Seq<u64>, lane: int, limb: int) -> u64 {
    let x = lane % 5;
    let y = lane / 5;
    if y == 0 && x == 0 {
        row[2629 + limb]
    } else {
        row[2465 + y * 20 + x * 4 + limb]
    }
}

/// The effective input bit `bi` of the permutation on this row, recovered
/// through the sub-AIR's three-way XOR identity `a' XOR c XOR c'`.  The
/// identity equals the true pre-permutation state only for the permutation
/// arithmetization this crate delegates to; a different sub-AIR needs its
/// own recovery formula.
pub open spec fn spec_recovered_input_bit(row: Seq<u64>, bi: int) -> u64 {
    let lane = bi / 64;
    let z = bi % 64;
    let x = lane % 5;
    let y = lane / 5;
    fxor3(
        row[865 + y * 320 + x * 64 + z],
        row[225 + x * 64 + z],
        row[545 + x * 64 + z],
    )
}

/// Flag booleanity: `hash_end`, `seen_end` and `active` are 0 or 1.
pub open spec fn spec_flag_bool_constraints(local: Seq<u64>) -> Seq<u64> {
    seq![fbool(local[2633]), fbool(local[2634]), fbool(local[2635])]
}

/// First row: `seen_end = 0` and `active = 1`.
pub open spec fn spec_first_row_constraints(local: Seq<u64>, is_first: bool) -> Seq<u64> {
    if is_first {
        seq![local[2634], fsub(local[2635], 1)]
    } else {
        seq![0u64, 0u64]
    }
}

/// Flag transitions: `seen_end' = seen_end + hash_end` and
/// `active' = active - hash_end`.
pub open spec fn spec_transition_constraints(
    local: Seq<u64>,
    next: Seq<u64>,
    is_transition: bool,
) -> Seq<u64> {
    if is_transition {
        seq![
            fsub(next[2634], fadd(local[2634], local[2633])),
            fsub(next[2635], fsub(local[2635], local[2633])),
        ]
    } else {
        seq![0u64, 0u64]
    }
}

/// `hash_end` only while active, and only on a final-round row.
pub open spec fn spec_hash_end_place_constraints(local: Seq<u64>) -> Seq<u64> {
    seq![
        fmul(local[2633], fmul(fsub(1, local[2635]), local[2633])),
        fmul(local[2633], fsub(1, local[23])),
    ]
}

/// Last row: `seen_end = 1`.
pub open spec fn spec_last_row_constraints(local: Seq<u64>, is_last: bool) -> Seq<u64> {
    if is_last {
        seq![fsub(local[2634], 1)]
    } else {
        seq![0u64]
    }
}

/// On a row that is not a final-round row, every output-bit cache column is
/// zero.
pub open spec fn spec_out_zero_constraints(local: Seq<u64>) -> Seq<u64> {
    Seq::new(1600, |i: int| fmul(fsub(1, local[23]), local[3724 + i]))
}

/// On a final-round row while active, every output-bit cache column is
/// boolean.
pub open spec fn spec_out_bool_constraints(local: Seq<u64>) -> Seq<u64> {
    Seq::new(1600, |i: int| fmul(fmul(local[23], local[2635]), fbool(local[3724 + i])))
}

/// On a final-round row while active, each 16 cached output bits sum to the
/// sub-AIR's output limb.
pub open spec fn spec_out_limb_constraints(local: Seq<u64>) -> Seq<u64> {
    Seq::new(
        100,
        |k: int|
            fmul(
                fmul(local[23], local[2635]),
                fsub(out_bits_acc(local, (k / 4) * 64 + (k % 4) * 16, 16), spec_out_limb(local, k / 4, k % 4)),
            ),
    )
}

/// On the hash-end row, the first 16 output limbs equal the public digest
/// limbs.
pub open spec fn spec_digest_constraints(local: Seq<u64>, pv: Seq<u64>) -> Seq<u64> {
    Seq::new(16, |i: int| fmul(local[2633], fsub(spec_out_limb(local, i / 4, i % 4), pv[i])))
}

/// On the first row, each recovered effective input bit equals the cached
/// block bit in the rate region and zero in the capacity region.
pub open spec fn spec_zero_iv_constraints(local: Seq<u64>, is_first: bool) -> Seq<u64> {
    if is_first {
        Seq::new(
            1600,
            |bi: int|
                fsub(
                    spec_recovered_input_bit(local, bi),
                    if bi < 1088 {
                        local[2636 + bi]
                    } else {
                        0u64
                    },
                ),
        )
    } else {
        Seq::new(1600, |bi: int| 0u64)
    }
}

/// At a permutation boundary that is still active, the next permutation's
/// recovered input is the local output XORed with the next block bits in
/// the rate region, and the local output unchanged in the capacity region.
pub open spec fn spec_chain_constraints(
    local: Seq<u64>,
    next: Seq<u64>,
    is_transition: bool,
) -> Seq<u64> {
    if is_transition {
        Seq::new(
            1600,
            |bi: int|
                fmul(
                    fmul(fmul(local[23], next[0]), next[2635]),
                    fsub(
                        spec_recovered_input_bit(next, bi),
                        if bi < 1088 {
                            fxor2(local[3724 + bi], next[2636 + bi])
                        } else {
                            local[3724 + bi]
                        },
                    ),
                ),
        )
    } else {
        Seq::new(1600, |bi: int| 0u64)
    }
}

/// On a first-round row, every cached block bit is boolean.
pub open spec fn spec_block_bool_constraints(local: Seq<u64>) -> Seq<u64> {
    Seq::new(1088, |i: int| fmul(local[0], fbool(local[2636 + i])))
}

/// Between two rows not separated by a final-round boundary, the cached
/// block bits are unchanged.
pub open spec fn spec_block_stable_constraints(
    local: Seq<u64>,
    next: Seq<u64>,
    is_transition: bool,
) -> Seq<u64> {
    if is_transition {
        Seq::new(1088, |i: int| fmul(fsub(1, local[23]), fsub(local[2636 + i], next[2636 + i])))
    } else {
        Seq::new(1088, |i: int| 0u64)
    }
}

/// All sponge constraint values of one row pair, in a fixed order.
pub open spec fn spec_row_constraints(
    local: Seq<u64>,
    next: Seq<u64>,
    pv: Seq<u64>,
    is_first: bool,
    is_last: bool,
    is_transition: bool,
) -> Seq<u64> {
    spec_flag_bool_constraints(local) + spec_first_row_constraints(local, is_first)
        + spec_transition_constraints(local, next, is_transition) + spec_hash_end_place_constraints(
        local,
    ) + spec_last_row_constraints(local, is_last) + spec_out_zero_constraints(local)
        + spec_out_bool_constraints(local) + spec_out_limb_constraints(local)
        + spec_digest_constraints(local, pv) + spec_zero_iv_constraints(local, is_first)
        + spec_chain_constraints(local, next, is_transition) + spec_block_bool_constraints(local)
        + spec_block_stable_constraints(local, next, is_transition)
}

/// A row (with its view of the trace) whose cells are canonical field
/// values.
pub open spec fn row_wf(row: Seq<u64>) -> bool {
    row.len() == 5324 && forall|i: int| 0 <= i < row.len() ==> row[i] < 0x7f000001
}

/// Public values as field elements: each 16-bit limb widened.
pub open spec fn pv_wf(pv: Seq<u64>) -> bool {
    pv.len() == 16 && forall|i: int| 0 <= i < 16 ==> pv[i] < 0x10000
}

/// The sub-AIR's output limb `limb` of lane `lane`, read from the row.
fn out_limb_val(local: &Vec<u64>, lane: usize, limb: usize) -> (v: u64)
    requires
        row_wf(local@),
        lane < 25,
        limb < 4,
    ensures
        v == spec_out_limb(local@, lane as int, limb as int),
        v < P,
{
    let x = lane % 5;
    let y = lane / 5;
    if y == 0 && x == 0 {
        local[2629 + limb]
    } else {
        local[2465 + y * 20 + x * 4 + limb]
    }
}

/// The recovered effective input bit `bi` of the row's permutation.
fn recovered_input_bit(row: &Vec<u64>, bi: usize) -> (v: u64)
    requires
        row_wf(row@),
        bi < 1600,
    ensures
        v == spec_recovered_input_bit(row@, bi as int),
        v < P,
{
    let lane = bi / 64;
    let z = bi % 64;
    let x = lane % 5;
    let y = lane / 5;
    field_xor3(row[865 + y * 320 + x * 64 + z], row[225 + x * 64 + z], row[545 + x * 64 + z])
}

/// Evaluate every sponge constraint of one row pair.  The result is the
/// exact constraint-value sequence of [`spec_row_constraints`]; the trace is
/// acceptable at this row only if every entry is zero.
#[verifier::rlimit(100)]
pub fn eval_sponge_row(
    local: &Vec<u64>,
    next: &Vec<u64>,
    pv: &Vec<u64>,
    is_first: bool,
    is_last: bool,
    is_transition: bool,
) -> (r: Vec<u64>)
    requires
        row_wf(local@),
        row_wf(next@),
        pv_wf(pv@),
    ensures
        r@ == spec_row_constraints(local@, next@, pv@, is_first, is_last, is_transition),
{
    let mut out: Vec<u64> = Vec::new();

    // flag booleanity
    out.push(field_bool(local[2633]));
    out.push(field_bool(local[2634]));
    out.push(field_bool(local[2635]));
    // first row
    if is_first {
        out.push(local[2634]);
        out.push(field_sub(local[2635], 1));
    } else {
        out.push(0);
        out.push(0);
    }
    // flag transitions
    if is_transition {
        out.push(field_sub(next[2634], field_add(local[2634], local[2633])));
        out.push(field_sub(next[2635], field_sub(local[2635], local[2633])));
    } else {
        out.push(0);
        out.push(0);
    }
    // hash_end placement
    out.push(field_mul(local[2633], field_mul(field_sub(1, local[2635]), local[2633])));
    out.push(field_mul(local[2633], field_sub(1, local[23])));
    // last row
    if is_last {
        out.push(field_sub(local[2634], 1));
    } else {
        out.push(0);
    }
    let ghost head = out@;
    proof {
        assert(head =~= spec_flag_bool_constraints(local@) + spec_first_row_constraints(
            local@,
            is_first,
        ) + spec_transition_constraints(local@, next@, is_transition)
            + spec_hash_end_place_constraints(local@) + spec_last_row_constraints(
            local@,
            is_last,
        ));
    }

    // out_bits are zero off final-round rows
    let not_final = field_sub(1, local[23]);
    let mut i: usize = 0;
    while i < 1600
        invariant
            row_wf(local@),
            not_final == fsub(1, local@[23]),
            not_final < P,
            i <= 1600,
            out@.len() == head.len() + i,
            forall|j: int| 0 <= j < head.len() ==> out@[j] == head[j],
            forall|j: int|
                0 <= j < i ==> out@[head.len() + j] == spec_out_zero_constraints(local@)[j],
        decreases 1600 - i,
    {
        out.push(field_mul(not_final, local[3724 + i]));
        i += 1;
    }

    // out_bits are boolean on active final-round rows
    let gate = field_mul(local[23], local[2635]);
    let ghost head2 = out@;
    let mut i2: usize = 0;
    while i2 < 1600
        invariant
            row_wf(local@),
            gate == fmul(local@[23], local@[2635]),
            gate < P,
            i2 <= 1600,
            out@.len() == head2.len() + i2,
            forall|j: int| 0 <= j < head2.len() ==> out@[j] == head2[j],
            forall|j: int|
                0 <= j < i2 ==> out@[head2.len() + j] == spec_out_bool_constraints(local@)[j],
        decreases 1600 - i2,
    {
        out.push(field_mul(gate, field_bool(local[3724 + i2])));
        i2 += 1;
    }

    // each 16 out_bits decompose the sub-AIR's output limb
    let ghost head3 = out@;
    let mut k: usize = 0;
    while k < 100
        invariant
            row_wf(local@),
            gate == fmul(local@[23], local@[2635]),
            gate < P,
            k <= 100,
            out@.len() == head3.len() + k,
            forall|j: int| 0 <= j < head3.len() ==> out@[j] == head3[j],
            forall|j: int|
                0 <= j < k ==> out@[head3.len() + j] == spec_out_limb_constraints(local@)[j],
        decreases 100 - k,
    {
        let lane = k / 4;
        let limb = k % 4;
        let base_bit = lane * 64 + limb * 16;
        let mut acc: u64 = 0;
        let mut p2: u64 = 1;
        let mut kk: usize = 0;
        while kk < 16
            invariant
                row_wf(local@),
                base_bit == (k / 4) * 64 + (k % 4) * 16,
                k < 100,
                base_bit <= 1584,
                kk <= 16,
                acc == out_bits_acc(local@, base_bit as int, kk as int),
                p2 == pow2f(kk as int),
                acc < P,
                p2 < P,
            decreases 16 - kk,
        {
            acc = field_add(acc, field_mul(local[3724 + base_bit + kk], p2));
            p2 = field_add(p2, p2);
            kk += 1;
        }
        let limb_val = out_limb_val(local, lane, limb);
        out.push(field_mul(gate, field_sub(acc, limb_val)));
        k += 1;
    }

    // digest limbs against public values on the hash-end row
    let ghost head4 = out@;
    let mut d: usize = 0;
    while d < 16
        invariant
            row_wf(local@),
            pv_wf(pv@),
            d <= 16,
            out@.len() == head4.len() + d,
            forall|j: int| 0 <= j < head4.len() ==> out@[j] == head4[j],
            forall|j: int|
                0 <= j < d ==> out@[head4.len() + j] == spec_digest_constraints(local@, pv@)[j],
        decreases 16 - d,
    {
        let limb_val = out_limb_val(local, d / 4, d % 4);
        out.push(field_mul(local[2633], field_sub(limb_val, pv[d])));
        d += 1;
    }

    // zero IV on the first row
    let ghost head5 = out@;
    let mut bi: usize = 0;
    while bi < 1600
        invariant
            row_wf(local@),
            bi <= 1600,
            out@.len() == head5.len() + bi,
            forall|j: int| 0 <= j < head5.len() ==> out@[j] == head5[j],
            forall|j: int|
                0 <= j < bi ==> out@[head5.len() + j] == spec_zero_iv_constraints(
                    local@,
                    is_first,
                )[j],
        decreases 1600 - bi,
    {
        if is_first {
            let input = recovered_input_bit(local, bi);
            let expected: u64 = if bi < 1088 {
                local[2636 + bi]
            } else {
                0
            };
            out.push(field_sub(input, expected));
        } else {
            out.push(0);
        }
        bi += 1;
    }

    // absorb chaining at active permutation boundaries
    let ghost head6 = out@;
    let boundary = if is_transition {
        field_mul(field_mul(local[23], next[0]), next[2635])
    } else {
        0
    };
    let mut ci: usize = 0;
    while ci < 1600
        invariant
            row_wf(local@),
            row_wf(next@),
            is_transition ==> boundary == fmul(fmul(local@[23], next@[0]), next@[2635]),
            boundary < P,
            ci <= 1600,
            out@.len() == head6.len() + ci,
            forall|j: int| 0 <= j < head6.len() ==> out@[j] == head6[j],
            forall|j: int|
                0 <= j < ci ==> out@[head6.len() + j] == spec_chain_constraints(
                    local@,
                    next@,
                    is_transition,
                )[j],
        decreases 1600 - ci,
    {
        if is_transition {
            let lhs = recovered_input_bit(next, ci);
            let rhs: u64 = if ci < 1088 {
                field_xor2(local[3724 + ci], next[2636 + ci])
            } else {
                local[3724 + ci]
            };
            out.push(field_mul(boundary, field_sub(lhs, rhs)));
        } else {
            out.push(0);
        }
        ci += 1;
    }

    // block bits are boolean on first-round rows
    let ghost head7 = out@;
    let mut xi: usize = 0;
    while xi < 1088
        invariant
            row_wf(local@),
            xi <= 1088,
            out@.len() == head7.len() + xi,
            forall|j: int| 0 <= j < head7.len() ==> out@[j] == head7[j],
            forall|j: int|
                0 <= j < xi ==> out@[head7.len() + j] == spec_block_bool_constraints(local@)[j],
        decreases 1088 - xi,
    {
        out.push(field_mul(local[0], field_bool(local[2636 + xi])));
        xi += 1;
    }

    // block bits are constant within one permutation
    let ghost head8 = out@;
    let mut si: usize = 0;
    while si < 1088
        invariant
            row_wf(local@),
            row_wf(next@),
            not_final == fsub(1, local@[23]),
            not_final < P,
            si <= 1088,
            out@.len() == head8.len() + si,
            forall|j: int| 0 <= j < head8.len() ==> out@[j] == head8[j],
            forall|j: int|
                0 <= j < si ==> out@[head8.len() + j] == spec_block_stable_constraints(
                    local@,
                    next@,
                    is_transition,
                )[j],
        decreases 1088 - si,
    {
        if is_transition {
            out.push(field_mul(not_final, field_sub(local[2636 + si], next[2636 + si])));
        } else {
            out.push(0);
        }
        si += 1;
    }

    proof {
        assert(out@ =~= spec_row_constraints(
            local@,
            next@,
            pv@,
            is_first,
            is_last,
            is_transition,
        ));
    }
    out
}

/// Every entry is zero.
pub open spec fn all_zero(s: Seq<u64>) -> bool {
    forall|i: int| 0 <= i < s.len() ==> s[i] == 0
}

/// Field arithmetic on the 0/1 flag values, written out once.
proof fn lemma_field_small_values()
    ensures
        fsub(0, 0) == 0,
        fsub(1, 1) == 0,
        fsub(1, 0) == 1,
        fsub(0, 1) == 0x7f000000,
        fadd(0, 0) == 0,
        fadd(0, 1) == 1,
        fadd(1, 0) == 1,
        fbool(0) == 0,
        fbool(1) == 0,
        forall|y: u64| #[trigger] fmul(0, y) == 0,
        forall|y: u64| #[trigger] fmul(y, 0) == 0,
        fmul(1, 0) == 0,
        fmul(1, 1) == 1,
{
    vstd::arithmetic::div_mod::lemma_small_mod(0nat, 0x7f000001nat);
    vstd::arithmetic::div_mod::lemma_small_mod(1nat, 0x7f000001nat);
    vstd::arithmetic::div_mod::lemma_small_mod(2nat, 0x7f000001nat);
    vstd::arithmetic::div_mod::lemma_small_mod(0x7f000000nat, 0x7f000001nat);
    assert(0x7f000001int % 0x7f000001int == 0) by {
        vstd::arithmetic::div_mod::lemma_mod_multiples_basic(1, 0x7f000001);
    }
    assert forall|y: u64| #[trigger] fmul(0, y) == 0 by {
        assert(0 * y == 0);
        vstd::arithmetic::div_mod::lemma_small_mod(0nat, 0x7f000001nat);
    }
    assert forall|y: u64| #[trigger] fmul(y, 0) == 0 by {
        assert(y * 0 == 0);
        vstd::arithmetic::div_mod::lemma_small_mod(0nat, 0x7f000001nat);
    }
}

/// A one-bit extraction is at most one, for 64-bit lanes.
proof fn lemma_u64_bit_le_one(v: u64, sh: u64)
    ensures
        (v >> sh) & 1 <= 1,
{
    assert((v >> sh) & 1 <= 1) by (bit_vector);
}

/// A one-bit extraction is at most one, for bytes.
proof fn lemma_u8_bit_le_one(v: u8, sh: u8)
    ensures
        (v >> sh) & 1 <= 1,
{
    assert((v >> sh) & 1 <= 1) by (bit_vector);
}

/// The provable half of trace acceptance: on every row of an honest trace,
/// every constraint family that reads only the sponge bookkeeping columns
/// and the sub-AIR's round indicators evaluates to all zeros — flag
/// booleanity, the first- and last-row boundaries, the flag transitions,
/// the hash-end placement gates, the off-round zeroing and booleanity of
/// the cached output bits, and the booleanity and in-block stability of the
/// cached block bits.  The four families that read the sub-AIR's bit and
/// limb columns (limb decomposition, digest, zero-IV and chaining) are
/// exercised at run time against the delegated trace builder instead.
#[verifier::rlimit(100)]
pub proof fn lemma_honest_trace_bookkeeping_constraints(
    t: SpongeTrace,
    m: Seq<u8>,
    r: int,
)
    requires
        crate::trace::honest_trace(t, m),
        0 <= r < t.height,
    ensures
        ({
            let local = row_seq(t, r);
            let next = row_seq(t, succ_row(t.height as int, r));
            let is_transition = r < t.height - 1;
            &&& all_zero(spec_flag_bool_constraints(local))
            &&& all_zero(spec_first_row_constraints(local, r == 0))
            &&& all_zero(spec_transition_constraints(local, next, is_transition))
            &&& all_zero(spec_hash_end_place_constraints(local))
            &&& all_zero(spec_last_row_constraints(local, r == t.height - 1))
            &&& all_zero(spec_out_zero_constraints(local))
            &&& all_zero(spec_out_bool_constraints(local))
            &&& all_zero(spec_block_bool_constraints(local))
            &&& all_zero(spec_block_stable_constraints(local, next, is_transition))
        }),
{
    crate::trace::lemma_hash_end_row_bounds(t, m);
    crate::sponge::lemma_padded_len(m);
    lemma_field_small_values();
    let he = crate::trace::hash_end_row(m);
    let nb = crate::sponge::num_blocks(m.len()) as int;
    let local = row_seq(t, r);
    let nr = succ_row(t.height as int, r);
    let next = row_seq(t, nr);
    let is_transition = r < t.height - 1;

    assert forall|c: int| 0 <= c < 5324 implies #[trigger] local[c] == t.spec_cell(r, c) by {}
    assert forall|c: int| 0 <= c < 5324 implies #[trigger] next[c] == t.spec_cell(nr, c) by {}
    let h = local[2633];
    let s = local[2634];
    let a = local[2635];
    let fs = local[23];
    assert(h == if r == he { 1u64 } else { 0u64 });
    assert(s == if r > he { 1u64 } else { 0u64 });
    assert(a == if r <= he { 1u64 } else { 0u64 });
    assert(fs == if r % 24 == 23 { 1u64 } else { 0u64 });
    assert(he % 24 == 23) by {
        vstd::arithmetic::div_mod::lemma_fundamental_div_mod_converse_mod(he, 24, nb - 1, 23);
    }

    // flag booleanity and the row boundaries
    let f1 = spec_flag_bool_constraints(local);
    assert(f1[0] == 0 && f1[1] == 0 && f1[2] == 0);
    assert(all_zero(f1));
    let f2 = spec_first_row_constraints(local, r == 0);
    assert(f2[0] == 0 && f2[1] == 0);
    assert(all_zero(f2));
    let f3 = spec_transition_constraints(local, next, is_transition);
    if is_transition {
        assert(next[2634] == if nr > he { 1u64 } else { 0u64 });
        assert(next[2635] == if nr <= he { 1u64 } else { 0u64 });
    }
    assert(f3[0] == 0 && f3[1] == 0);
    assert(all_zero(f3));
    let f4 = spec_hash_end_place_constraints(local);
    assert(f4[0] == 0 && f4[1] == 0);
    assert(all_zero(f4));
    let f5 = spec_last_row_constraints(local, r == t.height - 1);
    assert(f5[0] == 0);
    assert(all_zero(f5));

    // cached output bits: zero off final-round rows, boolean on them
    let f6 = spec_out_zero_constraints(local);
    assert forall|j: int| 0 <= j < 1600 implies #[trigger] f6[j] == 0 by {
        assert(local[3724 + j] == t.spec_cell(r, 3724 + j));
        if r % 24 == 23 {
            assert(fsub(1, fs) == 0);
        } else {
            assert(local[3724 + j] == 0);
        }
    }
    assert(all_zero(f6));
    let f7 = spec_out_bool_constraints(local);
    assert forall|j: int| 0 <= j < 1600 implies #[trigger] f7[j] == 0 by {
        let bit = local[3724 + j];
        assert(bit == crate::trace::spec_trace_cell(m, r, 3724 + j));
        if r % 24 == 23 && r / 24 < nb {
            let v = crate::sponge::perm_output_state(crate::sponge::padded_msg(m), r / 24)[j / 64];
            lemma_u64_bit_le_one(v, (j % 64) as u64);
            assert(bit <= 1);
        } else {
            assert(bit == 0);
        }
        assert(fbool(bit) == 0);
    }
    assert(all_zero(f7));

    // cached block bits: boolean, and stable inside one permutation
    let f8 = spec_block_bool_constraints(local);
    assert forall|j: int| 0 <= j < 1088 implies #[trigger] f8[j] == 0 by {
        let bit = local[2636 + j];
        assert(bit == crate::trace::spec_trace_cell(m, r, 2636 + j));
        if r / 24 < nb {
            let p = crate::sponge::padded_msg(m);
            let byte = p[(r / 24) * 136 + j / 8];
            lemma_u8_bit_le_one(byte, (j % 8) as u8);
            assert(bit <= 1);
        } else {
            assert(bit == 0);
        }
        assert(fbool(bit) == 0);
    }
    assert(all_zero(f8));
    let f9 = spec_block_stable_constraints(local, next, is_transition);
    assert forall|j: int| 0 <= j < 1088 implies #[trigger] f9[j] == 0 by {
        if is_transition {
            if r % 24 == 23 {
                assert(fsub(1, fs) == 0);
            } else {
                assert(nr == r + 1);
                assert((r + 1) / 24 == r / 24) by {
                    vstd::arithmetic::div_mod::lemma_fundamental_div_mod(r, 24);
                    vstd::arithmetic::div_mod::lemma_fundamental_div_mod_converse_div(
                        r + 1,
                        24,
                        r / 24,
                        r % 24 + 1,
                    );
                }
                let bb = local[2636 + j];
                assert(bb == crate::trace::spec_trace_cell(m, r, 2636 + j));
                assert(next[2636 + j] == crate::trace::spec_trace_cell(m, r + 1, 2636 + j));
                assert(bb == next[2636 + j]);
                assert(bb < 0x7f000001) by {
                    if r / 24 < nb {
                        let p = crate::sponge::padded_msg(m);
                        let byte = p[(r / 24) * 136 + j / 8];
                        lemma_u8_bit_le_one(byte, (j % 8) as u8);
                    }
                }
                lemma_fsub_zero_iff(bb, bb);
            }
        }
    }
    assert(all_zero(f9));
}

/// Tamper rejection at the zero-IV check: if the first row's constraints all
/// evaluate to zero, then every capacity-region bit of the recovered
/// effective input is zero — so a first row whose recovered capacity bit was
/// tampered to a non-zero value is rejected.
pub proof fn lemma_capacity_tamper_rejected(
    local: Seq<u64>,
    next: Seq<u64>,
    pv: Seq<u64>,
    is_last: bool,
    is_transition: bool,
    bi: int,
)
    requires
        row_wf(local),
        1088 <= bi < 1600,
        all_zero(spec_row_constraints(local, next, pv, true, is_last, is_transition)),
    ensures
        spec_recovered_input_bit(local, bi) == 0,
{
    let cs = spec_row_constraints(local, next, pv, true, is_last, is_transition);
    let zi = spec_zero_iv_constraints(local, true);
    assert(cs[3326 + bi] == zi[bi]);
    assert(zi[bi] == fsub(spec_recovered_input_bit(local, bi), 0));
    assert(spec_recovered_input_bit(local, bi) < 0x7f000001);
    lemma_fsub_zero_iff(spec_recovered_input_bit(local, bi), 0);
    assert(cs[3326 + bi] == 0);
}

/// Digest mismatch rejection: on the hash-end row, if every constraint
/// evaluates to zero then each of the 16 output limbs recoverable from the
/// permutation sub-AIR equals the public digest limb — so substituting any
/// other public limb is rejected at the digest check.
pub proof fn lemma_digest_mismatch_rejected(
    local: Seq<u64>,
    next: Seq<u64>,
    pv: Seq<u64>,
    is_first: bool,
    is_last: bool,
    is_transition: bool,
    i: int,
)
    requires
        row_wf(local),
        pv_wf(pv),
        local[2633] == 1,
        0 <= i < 16,
        all_zero(spec_row_constraints(local, next, pv, is_first, is_last, is_transition)),
    ensures
        spec_out_limb(local, i / 4, i % 4) == pv[i],
{
    let cs = spec_row_constraints(local, next, pv, is_first, is_last, is_transition);
    let dc = spec_digest_constraints(local, pv);
    assert(cs[3310 + i] == dc[i]);
    let limb = spec_out_limb(local, i / 4, i % 4);
    assert(limb < 0x7f000001);
    assert(dc[i] == fmul(1, fsub(limb, pv[i])));
    assert(fsub(limb, pv[i]) < 0x7f000001);
    lemma_fmul_one(fsub(limb, pv[i]));
    lemma_fsub_zero_iff(limb, pv[i]);
    assert(cs[3310 + i] == 0);
}

/// Row `r` of the trace as a sequence.
pub open spec fn row_seq(t: SpongeTrace, r: int) -> Seq<u64> {
    t.values@.subrange(r * 5324, r * 5324 + 5324)
}

/// Public digest limbs as field values.
pub open spec fn pv_of_limbs(limbs: Seq<u16>) -> Seq<u64> {
    limbs.map_values(|x: u16| x as u64)
}

/// Successor row index, wrapping the last row to the first.
pub open spec fn succ_row(height: int, r: int) -> int {
    if r + 1 < height {
        r + 1
    } else {
        0
    }
}

/// All sponge constraint values of row `r` of the trace, against the public
/// digest limbs.
pub open spec fn spec_trace_row_constraints(t: SpongeTrace, limbs: Seq<u16>, r: int) -> Seq<u64> {
    spec_row_constraints(
        row_seq(t, r),
        row_seq(t, succ_row(t.height as int, r)),
        pv_of_limbs(limbs),
        r == 0,
        r == t.height - 1,
        r < t.height - 1,
    )
}

/// The trace satisfies every sponge constraint of every row, with the last
/// row wrapping to the first for its (unconstrained) successor.
pub open spec fn trace_accepted(t: SpongeTrace, limbs: Seq<u16>) -> bool {
    forall|r: int|
        0 <= r < t.height ==> all_zero(#[trigger] spec_trace_row_constraints(t, limbs, r))
}

/// Copy row `r` of the trace.
pub fn trace_row(t: &SpongeTrace, r: usize) -> (row: Vec<u64>)
    requires
        t.wf(),
        r < t.height,
    ensures
        row@ == row_seq(*t, r as int),
        row_wf(row@),
{
    let mut out: Vec<u64> = Vec::new();
    let mut c: usize = 0;
    while c < 5324
        invariant
            t.wf(),
            r < t.height,
            c <= 5324,
            out@.len() == c,
            forall|j: int| 0 <= j < c ==> out@[j] == t.spec_cell(r as int, j) && out@[j]
                < 0x7f000001,
        decreases 5324 - c,
    {
        out.push(t.cell(r, c));
        c += 1;
    }
    proof {
        assert(out@ =~= row_seq(*t, r as int));
    }
    out
}

/// Whether every entry of a constraint-value vector is zero.
pub fn values_all_zero(v: &Vec<u64>) -> (r: bool)
    ensures
        r == all_zero(v@),
{
    let mut i: usize = 0;
    while i < v.len()
        invariant
            i <= v@.len(),
            forall|j: int| 0 <= j < i ==> v@[j] == 0,
        decreases v@.len() - i,
    {
        if v[i] != 0 {
            return false;
        }
        i += 1;
    }
    true
}

/// Evaluate the whole constraint set over every row of the trace against the
/// public digest limbs: the sponge-level acceptance check of the evaluator.
#[verifier::rlimit(60)]
pub fn sponge_constraints_hold(t: &SpongeTrace, limbs: &Vec<u16>) -> (r: bool)
    requires
        t.wf(),
        limbs@.len() == 16,
    ensures
        r == trace_accepted(*t, limbs@),
{
    let mut pv: Vec<u64> = Vec::new();
    let mut i: usize = 0;
    while i < 16
        invariant
            limbs@.len() == 16,
            i <= 16,
            pv@.len() == i,
            forall|j: int| 0 <= j < i ==> pv@[j] == limbs@[j] as u64,
        decreases 16 - i,
    {
        pv.push(limbs[i] as u64);
        i += 1;
    }
    proof {
        assert(pv@ =~= pv_of_limbs(limbs@));
    }
    let mut r: usize = 0;
    while r < t.height
        invariant
            t.wf(),
            limbs@.len() == 16,
            pv@ == pv_of_limbs(limbs@),
            r <= t.height,
            forall|rr: int|
                0 <= rr < r ==> all_zero(#[trigger] spec_trace_row_constraints(*t, limbs@, rr)),
        decreases t.height - r,
    {
        let local = trace_row(t, r);
        let next = trace_row(
            t,
            if r + 1 < t.height {
                r + 1
            } else {
                0
            },
        );
        let vals = eval_sponge_row(
            &local,
            &next,
            &pv,
            r == 0,
            r == t.height - 1,
            r < t.height - 1,
        );
        proof {
            assert(vals@ == spec_trace_row_constraints(*t, limbs@, r as int));
        }
        if !values_all_zero(&vals) {
            proof {
                assert(!all_zero(spec_trace_row_constraints(*t, limbs@, r as int)));
            }
            return false;
        }
        r += 1;
    }
    true
}

} // verus!
