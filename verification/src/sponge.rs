//! Keccak-256 sponge simulation: padding, block decomposition and chained
//! absorption over the Keccak-f[1600] permutation.
use vstd::prelude::*;

verus! {

/// Bytes absorbed per permutation (the Keccak-256 rate).
pub const RATE_BYTES: usize = 136;
/// Rate in bits.
pub const RATE_BITS: usize = 1088;
/// Full permutation state in bits (25 lanes of 64 bits).
pub const STATE_BITS: usize = 1600;
/// 32-byte digest as little-endian 16-bit limbs.
pub const DIGEST_LIMBS: usize = 16;
/// Rounds of Keccak-f[1600], one trace row each.
pub const NUM_ROUNDS: usize = 24;

/// Zero bytes inserted between the 0x01 suffix and the final 0x80 byte
/// (meaningful only when the suffix does not share a byte with the
/// terminator).
pub open spec fn pad_zero_count(n: nat) -> nat {
    (134 - (n % 136)) as nat
}

/// The padded message.  When exactly one free byte remains in the final
/// block, the 0x01 domain suffix and the closing 0x80 terminator merge into
/// the single byte 0x81; otherwise 0x01 is appended, then zeros until the
/// length is 135 modulo 136, then 0x80.
pub open spec fn padded_msg(m: Seq<u8>) -> Seq<u8> {
    if m.len() % 136 == 135 {
        m + seq![0x81u8]
    } else {
        m + seq![0x01u8] + Seq::new(pad_zero_count(m.len()), |i: int| 0u8) + seq![0x80u8]
    }
}

/// Number of 136-byte blocks in the padded message: always exactly one more
/// than the message's full blocks, since the padding never needs more than
/// the free bytes of one block.
pub open spec fn num_blocks(n: nat) -> nat {
    n / 136 + 1
}

pub proof fn lemma_padded_len(m: Seq<u8>)
    ensures
        padded_msg(m).len() % 136 == 0,
        padded_msg(m).len() == 136 * num_blocks(m.len()),
        padded_msg(m).len() <= m.len() + 137,
        num_blocks(m.len()) >= 1,
{
    let n = m.len();
    vstd::arithmetic::div_mod::lemma_mod_bound(n as int, 136);
    vstd::arithmetic::div_mod::lemma_fundamental_div_mod(n as int, 136);
    let q = (n as int) / 136;
    if n % 136 == 135 {
        assert(padded_msg(m).len() == 136 * (q + 1));
    } else {
        assert(padded_msg(m).len() == n + 2 + (134 - (n % 136)));
        assert(padded_msg(m).len() == 136 * (q + 1));
    }
    vstd::arithmetic::div_mod::lemma_mod_multiples_basic(q + 1, 136);
}

/// Single-block boundary: padding adds exactly one block beyond the
/// message's full blocks for every length.  In particular a message one
/// byte short of the rate still absorbs a single block, because the 0x01
/// suffix and the closing 0x80 share its one free byte as 0x81, while a
/// message of exactly one rate makes two blocks.
pub proof fn lemma_block_count(n: nat)
    ensures
        num_blocks(n) == n / 136 + 1,
        n % 136 == 135 ==> 136 * num_blocks(n) == n + 1,
        n % 136 <= 134 ==> 136 * num_blocks(n) == n + 2 + pad_zero_count(n),
{
    vstd::arithmetic::div_mod::lemma_mod_bound(n as int, 136);
    vstd::arithmetic::div_mod::lemma_fundamental_div_mod(n as int, 136);
}

/// Ethereum-style Keccak-256 padding: append the 0x01 domain suffix, zero
/// bytes until the buffer length is 135 modulo 136, then the 0x80
/// terminator; when only one free byte remains, the suffix and terminator
/// merge into 0x81.
pub fn keccak_pad10star1(msg: Vec<u8>) -> (r: Vec<u8>)
    requires
        msg@.len() + 272 <= usize::MAX,
    ensures
        r@ == padded_msg(msg@),
        r@.len() == 136 * num_blocks(msg@.len()),
        num_blocks(msg@.len()) >= 1,
{
    let ghost m = msg@;
    let mut msg = msg;
    proof {
        lemma_padded_len(m);
        vstd::arithmetic::div_mod::lemma_mod_bound(m.len() as int, 136);
        vstd::arithmetic::div_mod::lemma_fundamental_div_mod(m.len() as int, 136);
    }
    if msg.len() % RATE_BYTES == RATE_BYTES - 1 {
        // one free byte: the suffix and the terminator share it
        msg.push(0x81);
        proof {
            assert(msg@ =~= padded_msg(m));
        }
        return msg;
    }
    let ghost r0 = ((m.len() + 1) % 136) as int;
    let ghost z = pad_zero_count(m.len());
    proof {
        assert((m.len() + 1) % 136 == m.len() % 136 + 1) by {
            vstd::arithmetic::div_mod::lemma_fundamental_div_mod_converse_mod(
                (m.len() + 1) as int,
                136,
                (m.len() as int) / 136,
                (m.len() % 136 + 1) as int,
            );
        }
        assert(z == 135 - r0);
    }
    msg.push(0x01);
    while msg.len() % RATE_BYTES != RATE_BYTES - 1
        invariant
            m.len() + 1 <= msg.len() <= m.len() + 1 + z,
            msg@ == m + seq![0x01u8] + Seq::new((msg.len() - m.len() - 1) as nat, |i: int| 0u8),
            r0 == (m.len() + 1) % 136,
            z == 135 - r0,
            msg.len() % 136 == r0 + (msg.len() - m.len() - 1),
            m.len() + 272 <= usize::MAX,
        decreases m.len() + 1 + z - msg.len(),
    {
        let ghost k = (msg.len() - m.len() - 1) as int;
        proof {
            // the loop runs only while the residue is short of 135
            assert(r0 + k < 135);
            assert((msg.len() + 1) % 136 == r0 + k + 1) by {
                vstd::arithmetic::div_mod::lemma_add_mod_noop(msg.len() as int, 1, 136);
                vstd::arithmetic::div_mod::lemma_mod_twice(msg.len() as int, 136);
                vstd::arithmetic::div_mod::lemma_small_mod(1nat, 136);
                vstd::arithmetic::div_mod::lemma_small_mod((r0 + k + 1) as nat, 136);
            }
        }
        msg.push(0x00);
        proof {
            assert(msg@ =~= m + seq![0x01u8] + Seq::new(
                (msg.len() - m.len() - 1) as nat,
                |i: int| 0u8,
            ));
        }
    }
    msg.push(0x80);
    proof {
        assert(msg@ =~= padded_msg(m));
        lemma_padded_len(m);
    }
    msg
}

/// What the Keccak-f[1600] permutation returns on a 25-lane state; the
/// permutation itself is delegated to an outside implementation.
pub uninterp spec fn keccak_f(s: Seq<u64>) -> Seq<u64>;

/// Relies on p3_keccak::KeccakF::permute_mut: the Keccak-f[1600] permutation
/// over 25 lanes of 64 bits, a function of the lanes alone.
#[verifier::external_body]
pub(crate) fn keccak_permute(state: &mut Vec<u64>)
    requires
        old(state)@.len() == 25,
    ensures
        final(state)@ == keccak_f(old(state)@),
        final(state)@.len() == 25,
{
    let mut arr = [0u64; 25];
    arr.copy_from_slice(state.as_slice());
    p3_symmetric::Permutation::permute_mut(&p3_keccak::KeccakF, &mut arr);
    state.clear();
    state.extend_from_slice(&arr);
}

/// What Keccak-256 returns on a byte message (the reference digest).
pub uninterp spec fn keccak256_spec(m: Seq<u8>) -> Seq<u8>;

/// Relies on sha3::Keccak256 (through the Digest trait): the 32-byte
/// Keccak-256 digest, a function of the message bytes alone.
#[verifier::external_body]
pub(crate) fn keccak256_reference(data: &Vec<u8>) -> (r: Vec<u8>)
    ensures
        r@ == keccak256_spec(data@),
        r@.len() == 32,
{
    let d = <sha3::Keccak256 as sha3::Digest>::digest(data.as_slice());
    d.to_vec()
}

/// The 25-lane all-zero initial state.
pub open spec fn zero_state() -> Seq<u64> {
    Seq::new(25, |i: int| 0u64)
}

/// Lane `l` of block `b`, read little-endian from the padded message.
pub open spec fn block_lane(p: Seq<u8>, b: int, l: int) -> u64 {
    vstd::bytes::spec_u64_from_le_bytes(p.subrange(b * 136 + l * 8, b * 136 + l * 8 + 8))
}

/// The state after XORing the 17 rate lanes of block `b` into `s`.
pub open spec fn absorb_block(s: Seq<u64>, p: Seq<u8>, b: int) -> Seq<u64> {
    Seq::new(25, |l: int| if l < 17 { s[l] ^ block_lane(p, b, l) } else { s[l] })
}

/// Pre-permutation state of block `b` in the chained absorption of the
/// padded message `p`.
pub open spec fn perm_input_state(p: Seq<u8>, b: int) -> Seq<u64>
    decreases b,
{
    if b <= 0 {
        absorb_block(zero_state(), p, 0)
    } else {
        absorb_block(keccak_f(perm_input_state(p, b - 1)), p, b)
    }
}

/// Post-permutation state of block `b`.
pub open spec fn perm_output_state(p: Seq<u8>, b: int) -> Seq<u64> {
    keccak_f(perm_input_state(p, b))
}

/// Byte `k` of lane value `v`, little-endian.
pub open spec fn lane_byte(v: u64, k: int) -> u8 {
    ((v >> ((8 * k) as u64)) & 0xff) as u8
}

/// The 32-byte digest squeezed from the final permutation output of the
/// padded message `p` with `nb` blocks: the first four lanes, each
/// serialized little-endian.
pub open spec fn sponge_digest(p: Seq<u8>, nb: int) -> Seq<u8> {
    Seq::new(32, |j: int| lane_byte(perm_output_state(p, nb - 1)[j / 8], j % 8))
}

/// The per-block permutation states of one sponge absorption.
pub struct SpongeRun {
    /// Pre-permutation 25-lane state of each block.
    pub perm_inputs: Vec<Vec<u64>>,
    /// Post-permutation 25-lane state of each block.
    pub perm_outputs: Vec<Vec<u64>>,
}

/// The recorded states are exactly those of the chained absorption of `p`.
pub open spec fn sponge_run_wf(r: SpongeRun, p: Seq<u8>, nb: int) -> bool {
    &&& r.perm_inputs@.len() == nb
    &&& r.perm_outputs@.len() == nb
    &&& forall|b: int|
        0 <= b < nb ==> (#[trigger] r.perm_inputs@[b])@ == perm_input_state(p, b)
    &&& forall|b: int|
        0 <= b < nb ==> (#[trigger] r.perm_outputs@[b])@ == perm_output_state(p, b)
    &&& forall|b: int| 0 <= b < nb ==> (#[trigger] r.perm_inputs@[b])@.len() == 25
    &&& forall|b: int| 0 <= b < nb ==> (#[trigger] r.perm_outputs@[b])@.len() == 25
}

/// Absorb the padded message block by block: XOR each block's 17 rate lanes
/// into the state, record the pre-permutation state, permute, record the
/// post-permutation state.
pub fn absorb_padded(padded: &Vec<u8>, nb: usize) -> (r: SpongeRun)
    requires
        padded@.len() == 136 * nb,
        136 * nb <= usize::MAX,
        1 <= nb,
    ensures
        sponge_run_wf(r, padded@, nb as int),
{
    let ghost p = padded@;
    let mut state: Vec<u64> = Vec::new();
    for _i in 0..25usize
        invariant
            state@.len() == _i,
            forall|j: int| 0 <= j < _i ==> state@[j] == 0u64,
    {
        state.push(0u64);
    }
    proof {
        assert(state@ =~= zero_state());
    }
    let mut perm_inputs: Vec<Vec<u64>> = Vec::new();
    let mut perm_outputs: Vec<Vec<u64>> = Vec::new();
    let mut b: usize = 0;
    while b < nb
        invariant
            padded@ == p,
            p.len() == 136 * nb,
            136 * nb <= usize::MAX,
            1 <= nb,
            b <= nb,
            perm_inputs@.len() == b,
            perm_outputs@.len() == b,
            forall|bb: int|
                0 <= bb < b ==> (#[trigger] perm_inputs@[bb])@ == perm_input_state(p, bb),
            forall|bb: int|
                0 <= bb < b ==> (#[trigger] perm_outputs@[bb])@ == perm_output_state(p, bb),
            forall|bb: int| 0 <= bb < b ==> (#[trigger] perm_inputs@[bb])@.len() == 25,
            forall|bb: int| 0 <= bb < b ==> (#[trigger] perm_outputs@[bb])@.len() == 25,
            state@.len() == 25,
            state@ == if b == 0 {
                zero_state()
            } else {
                perm_output_state(p, b - 1)
            },
        decreases nb - b,
    {
        let ghost prev = state@;
        let mut l: usize = 0;
        while l < 17
            invariant
                padded@ == p,
                p.len() == 136 * nb,
                136 * nb <= usize::MAX,
                b < nb,
                l <= 17,
                state@.len() == 25,
                forall|i: int| 0 <= i < l ==> state@[i] == prev[i] ^ block_lane(p, b as int, i),
                forall|i: int| l <= i < 25 ==> state@[i] == prev[i],
            decreases 17 - l,
        {
            proof {
                vstd::arithmetic::mul::lemma_mul_inequality(b + 1, nb as int, 136);
            }
            let off = b * 136 + l * 8;
            let chunk = vstd::slice::slice_subrange(padded.as_slice(), off, off + 8);
            let w = vstd::bytes::u64_from_le_bytes(chunk);
            proof {
                assert(chunk@ == p.subrange(
                    (b * 136 + l * 8) as int,
                    (b * 136 + l * 8 + 8) as int,
                ));
            }
            let s = state[l] ^ w;
            state[l] = s;
            l += 1;
        }
        proof {
            assert(state@ =~= absorb_block(prev, p, b as int));
            if b == 0 {
                assert(absorb_block(prev, p, 0) == perm_input_state(p, 0));
            } else {
                assert(absorb_block(prev, p, b as int) == perm_input_state(p, b as int));
            }
        }
        perm_inputs.push(state.clone());
        keccak_permute(&mut state);
        perm_outputs.push(state.clone());
        b += 1;
    }
    SpongeRun { perm_inputs, perm_outputs }
}

/// Serialize the first four lanes of the final permutation output as the
/// little-endian 32-byte digest.
pub fn squeeze_digest(state: &Vec<u64>) -> (r: Vec<u8>)
    requires
        state@.len() == 25,
    ensures
        r@.len() == 32,
        forall|j: int| 0 <= j < 32 ==> r@[j] == lane_byte(state@[j / 8], j % 8),
{
    let mut out: Vec<u8> = Vec::new();
    let mut j: usize = 0;
    while j < 32
        invariant
            state@.len() == 25,
            j <= 32,
            out@.len() == j,
            forall|i: int| 0 <= i < j ==> out@[i] == lane_byte(state@[i / 8], i % 8),
        decreases 32 - j,
    {
        let v = state[j / 8];
        let k = j % 8;
        let byte = ((v >> ((8 * k) as u64)) & 0xff) as u8;
        out.push(byte);
        j += 1;
    }
    out
}

/// Limb `i` of a 32-byte digest: the little-endian 16-bit value of bytes
/// `2i` and `2i + 1`.
pub open spec fn digest_limb(d: Seq<u8>, i: int) -> u16 {
    (d[2 * i] as u16) | ((d[2 * i + 1] as u16) << 8u16)
}

/// Decompose a 32-byte digest into 16 little-endian 16-bit limbs.
pub fn digest_to_u16_limbs_le(d: &Vec<u8>) -> (r: Vec<u16>)
    requires
        d@.len() == 32,
    ensures
        r@.len() == 16,
        forall|i: int| 0 <= i < 16 ==> r@[i] == digest_limb(d@, i),
{
    let mut out: Vec<u16> = Vec::new();
    let mut i: usize = 0;
    while i < 16
        invariant
            d@.len() == 32,
            i <= 16,
            out@.len() == i,
            forall|k: int| 0 <= k < i ==> out@[k] == digest_limb(d@, k),
        decreases 16 - i,
    {
        let limb = (d[2 * i] as u16) | ((d[2 * i + 1] as u16) << 8u16);
        out.push(limb);
        i += 1;
    }
    out
}

/// The byte sequence a limb sequence stands for: each 16-bit limb written
/// little-endian.
pub open spec fn limbs_to_bytes(limbs: Seq<u16>) -> Seq<u8> {
    Seq::new(
        2 * limbs.len(),
        |j: int|
            if j % 2 == 0 {
                (limbs[j / 2] & 0xff) as u8
            } else {
                ((limbs[j / 2] >> 8u16) & 0xff) as u8
            },
    )
}

/// Reassemble the digest bytes from 16-bit limbs, little-endian per limb.
pub fn limbs_to_digest_bytes(limbs: &Vec<u16>) -> (r: Vec<u8>)
    ensures
        r@ == limbs_to_bytes(limbs@),
{
    let mut out: Vec<u8> = Vec::new();
    let mut i: usize = 0;
    while i < limbs.len()
        invariant
            i <= limbs@.len(),
            out@.len() == 2 * i,
            forall|j: int| 0 <= j < 2 * i ==> out@[j] == limbs_to_bytes(limbs@)[j],
        decreases limbs@.len() - i,
    {
        let limb = limbs[i];
        out.push((limb & 0xff) as u8);
        out.push(((limb >> 8u16) & 0xff) as u8);
        i += 1;
    }
    proof {
        assert(out@ =~= limbs_to_bytes(limbs@));
    }
    out
}

/// Digest limbs round-trip: decomposing a 32-byte digest into 16 little-endian
/// 16-bit limbs and writing the limbs back out little-endian returns the
/// digest unchanged; so the limbs the trace generator publishes reassemble to
/// the reference digest of the message.
pub proof fn lemma_digest_limbs_roundtrip(d: Seq<u8>)
    requires
        d.len() == 32,
    ensures
        limbs_to_bytes(Seq::new(16, |i: int| digest_limb(d, i))) == d,
{
    let limbs = Seq::new(16, |i: int| digest_limb(d, i));
    let back = limbs_to_bytes(limbs);
    assert forall|j: int| 0 <= j < 32 implies back[j] == d[j] by {
        let a = d[2 * (j / 2)];
        let b = d[2 * (j / 2) + 1];
        assert((((a as u16) | ((b as u16) << 8u16)) & 0xff) as u8 == a) by (bit_vector);
        assert(((((a as u16) | ((b as u16) << 8u16)) >> 8u16) & 0xff) as u8 == b) by (bit_vector);
        if j % 2 == 0 {
            assert(2 * (j / 2) == j);
        } else {
            assert(2 * (j / 2) + 1 == j);
        }
    }
    assert(back =~= d);
}

} // verus!
