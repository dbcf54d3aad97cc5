//! Deterministic benchmark inputs: a pseudo-random message of a requested
//! length, seeded by that length, together with its reference digest.
use vstd::prelude::*;

use crate::sponge::{keccak256_reference, keccak256_spec};

verus! {

/// The byte string the standard generator yields when seeded with `seed`
/// and asked to fill one buffer of `len` bytes.
pub uninterp spec fn std_rng_bytes(seed: u64, len: int) -> Seq<u8>;

/// Relies on rand::rngs::StdRng — SeedableRng::seed_from_u64 followed by
/// one RngCore::fill_bytes: the filled bytes are a function of the seed and
/// the length alone, since the generator is a deterministic, platform-stable
/// stream cipher.
#[verifier::external_body]
fn seeded_bytes(seed: u64, len: usize) -> (r: Vec<u8>)
    ensures
        r@ == std_rng_bytes(seed, len as int),
        r@.len() == len,
{
    let mut rng = <rand::rngs::StdRng as rand::SeedableRng>::seed_from_u64(seed);
    let mut bytes = vec![0u8; len];
    rand::RngCore::fill_bytes(&mut rng, &mut bytes);
    bytes
}

/// The 32-byte blocks the standard generator yields when seeded with
/// `seed` and asked to fill `count` 32-byte buffers in sequence.
pub uninterp spec fn std_rng_blocks32(seed: u64, count: int) -> Seq<Seq<u8>>;

/// Relies on rand::rngs::StdRng — SeedableRng::seed_from_u64 followed by
/// `count` RngCore::fill_bytes calls of 32 bytes each: a function of the
/// seed and the count alone.
#[verifier::external_body]
fn seeded_blocks32(seed: u64, count: usize) -> (r: Vec<Vec<u8>>)
    ensures
        r@.map_values(|v: Vec<u8>| v@) == std_rng_blocks32(seed, count as int),
        r@.len() == count,
        forall|i: int| 0 <= i < count ==> (#[trigger] r@[i])@.len() == 32,
{
    let mut rng = <rand::rngs::StdRng as rand::SeedableRng>::seed_from_u64(seed);
    (0..count)
        .map(|_| {
            let mut bytes = vec![0u8; 32];
            rand::RngCore::fill_bytes(&mut rng, &mut bytes);
            bytes
        })
        .collect()
}

/// The 32-bit words the standard generator yields when seeded with `seed`
/// and asked for `count` draws.
pub uninterp spec fn std_rng_u32s(seed: u64, count: int) -> Seq<u32>;

/// Relies on rand::rngs::StdRng — SeedableRng::seed_from_u64 followed by
/// `count` RngCore::next_u32 calls: a function of the seed and the count
/// alone.
#[verifier::external_body]
fn seeded_u32s(seed: u64, count: usize) -> (r: Vec<u32>)
    ensures
        r@ == std_rng_u32s(seed, count as int),
        r@.len() == count,
{
    let mut rng = <rand::rngs::StdRng as rand::SeedableRng>::seed_from_u64(seed);
    (0..count).map(|_| rand::RngCore::next_u32(&mut rng)).collect()
}

/// The 64-bit words the standard generator yields when seeded with `seed`
/// and asked for `count` draws.
pub uninterp spec fn std_rng_u64s(seed: u64, count: int) -> Seq<u64>;

/// Relies on rand::rngs::StdRng — SeedableRng::seed_from_u64 followed by
/// `count` RngCore::next_u64 calls: a function of the seed and the count
/// alone.
#[verifier::external_body]
fn seeded_u64s(seed: u64, count: usize) -> (r: Vec<u64>)
    ensures
        r@ == std_rng_u64s(seed, count as int),
        r@.len() == count,
{
    let mut rng = <rand::rngs::StdRng as rand::SeedableRng>::seed_from_u64(seed);
    (0..count).map(|_| rand::RngCore::next_u64(&mut rng)).collect()
}

/// What SHA-256 returns on a byte message.
pub uninterp spec fn sha256_spec(m: Seq<u8>) -> Seq<u8>;

/// Relies on sha2::Sha256 (through the Digest trait): the 32-byte SHA-256
/// digest, a function of the message bytes alone.
#[verifier::external_body]
pub(crate) fn sha256_reference(data: &Vec<u8>) -> (r: Vec<u8>)
    ensures
        r@ == sha256_spec(data@),
        r@.len() == 32,
{
    let d = <sha2::Sha256 as sha2::Digest>::digest(data.as_slice());
    d.to_vec()
}

/// Generate a pseudo-random message of `input_size` bytes, seeded by the
/// length, and its Keccak-256 digest.  The message is the deterministic
/// stream of the seeded generator, so equal sizes give equal pairs.
pub fn generate_keccak_input(input_size: usize) -> (r: (Vec<u8>, Vec<u8>))
    ensures
        r.0@ == std_rng_bytes(input_size as u64, input_size as int),
        r.0@.len() == input_size,
        r.1@ == keccak256_spec(r.0@),
        r.1@.len() == 32,
{
    let message_bytes = seeded_bytes(input_size as u64, input_size);
    let digest_bytes = keccak256_reference(&message_bytes);
    (message_bytes, digest_bytes)
}

/// Generate a pseudo-random message of `input_size` bytes, seeded by the
/// length, and its SHA-256 digest.  The message is the deterministic stream
/// of the seeded generator, so equal sizes give equal pairs.
pub fn generate_sha256_input(input_size: usize) -> (r: (Vec<u8>, Vec<u8>))
    ensures
        r.0@ == std_rng_bytes(input_size as u64, input_size as int),
        r.0@.len() == input_size,
        r.1@ == sha256_spec(r.0@),
        r.1@.len() == 32,
{
    let message_bytes = seeded_bytes(input_size as u64, input_size);
    let digest_bytes = sha256_reference(&message_bytes);
    (message_bytes, digest_bytes)
}

/// A 32-byte block with its most significant byte masked to its low five
/// bits, so the little-endian value fits the target field.
pub open spec fn masked_block(b: Seq<u8>) -> Seq<u8> {
    b.update(31, b[31] & 0x1f)
}

/// Generate `input_size` pseudo-random 32-byte values from the seeded
/// generator, each masked so that its most significant byte keeps only its
/// low five bits; deterministic in the size.
pub fn generate_poseidon_input(input_size: usize) -> (r: Vec<Vec<u8>>)
    ensures
        r@.len() == input_size,
        forall|i: int|
            0 <= i < input_size ==> (#[trigger] r@[i])@ == masked_block(
                std_rng_blocks32(input_size as u64, input_size as int)[i],
            ),
        forall|i: int| 0 <= i < input_size ==> (#[trigger] r@[i])@.len() == 32,
        forall|i: int| 0 <= i < input_size ==> r@[i]@[31] <= 0x1f,
{
    let blocks = seeded_blocks32(input_size as u64, input_size);
    let mut out: Vec<Vec<u8>> = Vec::new();
    let mut i: usize = 0;
    while i < input_size
        invariant
            blocks@.len() == input_size,
            blocks@.map_values(|v: Vec<u8>| v@) == std_rng_blocks32(
                input_size as u64,
                input_size as int,
            ),
            forall|k: int| 0 <= k < input_size ==> (#[trigger] blocks@[k])@.len() == 32,
            out@.len() == i,
            i <= input_size,
            forall|k: int|
                0 <= k < i ==> (#[trigger] out@[k])@ == masked_block(
                    std_rng_blocks32(input_size as u64, input_size as int)[k],
                ),
            forall|k: int| 0 <= k < i ==> (#[trigger] out@[k])@.len() == 32,
            forall|k: int| 0 <= k < i ==> out@[k]@[31] <= 0x1f,
        decreases input_size - i,
    {
        let mut bytes = blocks[i].clone();
        let masked = bytes[31] & 0x1f;
        proof {
            let b = bytes@[31];
            assert(b & 0x1f <= 0x1f) by (bit_vector);
            assert(blocks@.map_values(|v: Vec<u8>| v@)[i as int] == blocks@[i as int]@);
        }
        bytes[31] = masked;
        proof {
            assert(bytes@ =~= masked_block(
                std_rng_blocks32(input_size as u64, input_size as int)[i as int],
            ));
        }
        out.push(bytes);
        i += 1;
    }
    out
}

/// Generate `input_size` pseudo-random values below the Mersenne-31 prime,
/// deterministic in the size.
pub fn generate_poseidon_input_m31(input_size: usize) -> (r: Vec<u32>)
    ensures
        r@.len() == input_size,
        forall|i: int|
            0 <= i < input_size ==> r@[i] == std_rng_u32s(input_size as u64, input_size as int)[i]
                % 0x7fffffff,
        forall|i: int| 0 <= i < input_size ==> r@[i] < 0x7fffffff,
{
    let words = seeded_u32s(input_size as u64, input_size);
    let mut out: Vec<u32> = Vec::new();
    let mut i: usize = 0;
    while i < input_size
        invariant
            words@.len() == input_size,
            words@ == std_rng_u32s(input_size as u64, input_size as int),
            out@.len() == i,
            i <= input_size,
            forall|k: int|
                0 <= k < i ==> out@[k] == std_rng_u32s(input_size as u64, input_size as int)[k]
                    % 0x7fffffff,
            forall|k: int| 0 <= k < i ==> out@[k] < 0x7fffffff,
        decreases input_size - i,
    {
        out.push(words[i] % 0x7fffffffu32);
        i += 1;
    }
    out
}

/// Generate `input_size` pseudo-random values below the Goldilocks prime,
/// deterministic in the size.
pub fn generate_poseidon_input_goldilocks(input_size: usize) -> (r: Vec<u64>)
    ensures
        r@.len() == input_size,
        forall|i: int|
            0 <= i < input_size ==> r@[i] == std_rng_u64s(input_size as u64, input_size as int)[i]
                % 0xFFFFFFFF00000001,
        forall|i: int| 0 <= i < input_size ==> r@[i] < 0xFFFFFFFF00000001,
{
    let words = seeded_u64s(input_size as u64, input_size);
    let mut out: Vec<u64> = Vec::new();
    let mut i: usize = 0;
    while i < input_size
        invariant
            words@.len() == input_size,
            words@ == std_rng_u64s(input_size as u64, input_size as int),
            out@.len() == i,
            i <= input_size,
            forall|k: int|
                0 <= k < i ==> out@[k] == std_rng_u64s(input_size as u64, input_size as int)[k]
                    % 0xFFFFFFFF00000001,
            forall|k: int| 0 <= k < i ==> out@[k] < 0xFFFFFFFF00000001,
        decreases input_size - i,
    {
        out.push(words[i] % 0xFFFFFFFF00000001u64);
        i += 1;
    }
    out
}

} // verus!
