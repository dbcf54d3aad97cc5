//! Byte-level input framing for the zkVM guests: length-prefixed frames,
//! word-packed advice tapes and the decoding of committed public values.
use vstd::prelude::*;

verus! {

/// The four little-endian bytes of a 32-bit value.
pub open spec fn le4(n: u32) -> Seq<u8> {
    seq![
        (n & 0xff) as u8,
        ((n >> 8u32) & 0xff) as u8,
        ((n >> 16u32) & 0xff) as u8,
        ((n >> 24u32) & 0xff) as u8,
    ]
}

/// The eight little-endian bytes of a 64-bit value.
pub open spec fn le8(n: u64) -> Seq<u8> {
    seq![
        (n & 0xff) as u8,
        ((n >> 8u64) & 0xff) as u8,
        ((n >> 16u64) & 0xff) as u8,
        ((n >> 24u64) & 0xff) as u8,
        ((n >> 32u64) & 0xff) as u8,
        ((n >> 40u64) & 0xff) as u8,
        ((n >> 48u64) & 0xff) as u8,
        ((n >> 56u64) & 0xff) as u8,
    ]
}

/// Append the four little-endian bytes of `n`.
fn push_le4(out: &mut Vec<u8>, n: u32)
    ensures
        final(out)@ == old(out)@ + le4(n),
{
    out.push((n & 0xff) as u8);
    out.push(((n >> 8u32) & 0xff) as u8);
    out.push(((n >> 16u32) & 0xff) as u8);
    out.push(((n >> 24u32) & 0xff) as u8);
    proof {
        assert(out@ =~= old(out)@ + le4(n));
    }
}

/// Append the eight little-endian bytes of `n`.
fn push_le8(out: &mut Vec<u8>, n: u64)
    ensures
        final(out)@ == old(out)@ + le8(n),
{
    out.push((n & 0xff) as u8);
    out.push(((n >> 8u64) & 0xff) as u8);
    out.push(((n >> 16u64) & 0xff) as u8);
    out.push(((n >> 24u64) & 0xff) as u8);
    out.push(((n >> 32u64) & 0xff) as u8);
    out.push(((n >> 40u64) & 0xff) as u8);
    out.push(((n >> 48u64) & 0xff) as u8);
    out.push(((n >> 56u64) & 0xff) as u8);
    proof {
        assert(out@ =~= old(out)@ + le8(n));
    }
}

/// The frame format of the byte-oriented guests: the payload length as four
/// little-endian bytes, then the payload.
pub fn build_framed_input(data: Vec<u8>) -> (r: Vec<u8>)
    requires
        data@.len() <= u32::MAX,
    ensures
        r@ == le4(data@.len() as u32) + data@,
{
    let len = data.len() as u32;
    let mut framed: Vec<u8> = Vec::new();
    push_le4(&mut framed, len);
    let ghost head = framed@;
    let mut i: usize = 0;
    while i < data.len()
        invariant
            head == le4(data@.len() as u32),
            i <= data@.len(),
            framed@.len() == head.len() + i,
            forall|j: int| 0 <= j < head.len() ==> framed@[j] == head[j],
            forall|j: int| 0 <= j < i ==> framed@[head.len() + j] == data@[j],
        decreases data@.len() - i,
    {
        framed.push(data[i]);
        i += 1;
    }
    proof {
        assert(framed@ =~= le4(data@.len() as u32) + data@);
    }
    framed
}

/// The `w`-th little-endian 32-bit word of a byte string, zero-padded past
/// its end.
pub open spec fn le_word(data: Seq<u8>, w: int) -> u32 {
    (spec_byte_or_zero(data, 4 * w) as u32) | ((spec_byte_or_zero(data, 4 * w + 1) as u32)
        << 8u32) | ((spec_byte_or_zero(data, 4 * w + 2) as u32) << 16u32) | ((spec_byte_or_zero(
        data,
        4 * w + 3,
    ) as u32) << 24u32)
}

/// The `w`-th big-endian 32-bit word of a byte string, zero-padded past its
/// end.
pub open spec fn be_word(data: Seq<u8>, w: int) -> u32 {
    ((spec_byte_or_zero(data, 4 * w) as u32) << 24u32) | ((spec_byte_or_zero(data, 4 * w + 1)
        as u32) << 16u32) | ((spec_byte_or_zero(data, 4 * w + 2) as u32) << 8u32)
        | (spec_byte_or_zero(data, 4 * w + 3) as u32)
}

/// A byte of the string, or zero past its end.
pub open spec fn spec_byte_or_zero(data: Seq<u8>, i: int) -> u8 {
    if 0 <= i < data.len() {
        data[i]
    } else {
        0
    }
}

fn byte_or_zero(data: &[u8], i: usize) -> (r: u8)
    ensures
        r == spec_byte_or_zero(data@, i as int),
{
    if i < data.len() {
        *vstd::slice::slice_index_get(data, i)
    } else {
        0
    }
}

/// Number of 32-bit words the advice tape holds for `len` payload bytes:
/// the payload words rounded up to a multiple of four.
pub open spec fn words_padded(len: int) -> int {
    (((len + 3) / 4 + 3) / 4) * 4
}

/// Byte `j` of the packed advice tape: the words of the payload, each
/// zero-extended to a 64-bit little-endian value.
pub open spec fn packed_byte(data: Seq<u8>, j: int) -> u8 {
    if j % 8 < 4 {
        ((le_word(data, j / 8) >> ((8 * (j % 8)) as u32)) & 0xff) as u8
    } else {
        0
    }
}

/// Pack bytes as little-endian 32-bit words into the 64-bit little-endian
/// advice tape format, padded to a four-word boundary.
pub fn pack_le_words(stdin: &mut Vec<u8>, data: &[u8])
    requires
        data@.len() <= 0x10000000,
    ensures
        final(stdin)@.len() == old(stdin)@.len() + 8 * words_padded(data@.len() as int),
        forall|j: int|
            0 <= j < old(stdin)@.len() ==> final(stdin)@[j] == old(stdin)@[j],
        forall|j: int|
            0 <= j < 8 * words_padded(data@.len() as int) ==> final(stdin)@[old(stdin)@.len() + j]
                == packed_byte(data@, j),
{
    let words_needed = (((data.len() + 3) / 4 + 3) / 4) * 4;
    let mut w: usize = 0;
    while w < words_needed
        invariant
            data@.len() <= 0x10000000,
            words_needed == words_padded(data@.len() as int),
            w <= words_needed,
            stdin@.len() == old(stdin)@.len() + 8 * w,
            forall|j: int| 0 <= j < old(stdin)@.len() ==> stdin@[j] == old(stdin)@[j],
            forall|j: int|
                0 <= j < 8 * w ==> stdin@[old(stdin)@.len() + j] == packed_byte(data@, j),
        decreases words_needed - w,
    {
        let word = (byte_or_zero(data, 4 * w) as u32) | ((byte_or_zero(data, 4 * w + 1) as u32)
            << 8u32) | ((byte_or_zero(data, 4 * w + 2) as u32) << 16u32) | ((byte_or_zero(
            data,
            4 * w + 3,
        ) as u32) << 24u32);
        let ghost before = stdin@;
        push_le8(stdin, word as u64);
        proof {
            assert(word == le_word(data@, w as int));
            assert forall|k: int| 0 <= k < 8 implies (#[trigger] stdin@[before.len() + k])
                == packed_byte(data@, 8 * (w as int) + k) by {
                let n = word as u64;
                let ww = le_word(data@, w as int);
                if k == 0 {
                    assert((n & 0xff) as u8 == ((ww >> 0u32) & 0xff) as u8) by (bit_vector)
                        requires n == ww as u64;
                    assert(ww >> 0u32 == ww) by (bit_vector);
                } else if k == 1 {
                    assert(((n >> 8u64) & 0xff) as u8 == ((ww >> 8u32) & 0xff) as u8)
                        by (bit_vector)
                        requires n == ww as u64;
                } else if k == 2 {
                    assert(((n >> 16u64) & 0xff) as u8 == ((ww >> 16u32) & 0xff) as u8)
                        by (bit_vector)
                        requires n == ww as u64;
                } else if k == 3 {
                    assert(((n >> 24u64) & 0xff) as u8 == ((ww >> 24u32) & 0xff) as u8)
                        by (bit_vector)
                        requires n == ww as u64;
                } else {
                    assert(((n >> 32u64) & 0xff) as u8 == 0) by (bit_vector)
                        requires n < 0x100000000u64;
                    assert(((n >> 40u64) & 0xff) as u8 == 0) by (bit_vector)
                        requires n < 0x100000000u64;
                    assert(((n >> 48u64) & 0xff) as u8 == 0) by (bit_vector)
                        requires n < 0x100000000u64;
                    assert(((n >> 56u64) & 0xff) as u8 == 0) by (bit_vector)
                        requires n < 0x100000000u64;
                }
            }
            assert forall|j: int|
                0 <= j < 8 * (w + 1) implies (#[trigger] stdin@[old(stdin)@.len() + j])
                == packed_byte(data@, j) by {
                if j < 8 * w {
                    assert(stdin@[old(stdin)@.len() + j] == before[old(stdin)@.len() + j]);
                } else {
                    let k = j - 8 * (w as int);
                    assert(stdin@[before.len() + k] == packed_byte(data@, 8 * (w as int) + k));
                    assert(old(stdin)@.len() + j == before.len() + k);
                }
            }
        }
        w += 1;
    }
}

/// Byte `j` of the advice-tape body: the payload as big-endian 32-bit
/// words, grouped in blocks of four with the words of each block reversed,
/// each word zero-extended to a 64-bit little-endian value.
pub open spec fn spec_word_tape_byte(data: Seq<u8>, j: int) -> u8 {
    le8(be_word(data, 4 * (j / 32) + 3 - ((j % 32) / 8)) as u64)[j % 8]
}

/// The advice-tape format of the stack-machine guest: the payload length as
/// eight little-endian bytes, then the payload as big-endian words in
/// reversed blocks of four.
pub fn build_input(data: Vec<u8>) -> (r: Vec<u8>)
    requires
        data@.len() <= 0x10000000,
    ensures
        r@.len() == 8 + 32 * ((data@.len() + 15) / 16),
        r@.subrange(0, 8) == le8(data@.len() as u64),
        forall|j: int|
            0 <= j < 32 * ((data@.len() + 15) / 16) ==> r@[8 + j] == spec_word_tape_byte(data@, j),
{
    let len = data.len();
    let blocks = (len + 15) / 16;
    let mut stdin: Vec<u8> = Vec::new();
    push_le8(&mut stdin, len as u64);
    let ghost head = stdin@;
    let mut b: usize = 0;
    while b < blocks
        invariant
            data@.len() <= 0x10000000,
            len == data@.len(),
            blocks == (data@.len() + 15) / 16,
            head == le8(data@.len() as u64),
            b <= blocks,
            stdin@.len() == 8 + 32 * b,
            forall|j: int| 0 <= j < 8 ==> stdin@[j] == head[j],
            forall|j: int|
                0 <= j < 32 * b ==> stdin@[8 + j] == spec_word_tape_byte(data@, j),
        decreases blocks - b,
    {
        let mut s: usize = 0;
        while s < 4
            invariant
                data@.len() <= 0x10000000,
                len == data@.len(),
                blocks == (data@.len() + 15) / 16,
                head == le8(data@.len() as u64),
                b < blocks,
                s <= 4,
                stdin@.len() == 8 + 32 * b + 8 * s,
                forall|j: int| 0 <= j < 8 ==> stdin@[j] == head[j],
                forall|j: int|
                    0 <= j < 32 * b + 8 * s ==> stdin@[8 + j] == spec_word_tape_byte(data@, j),
            decreases 4 - s,
        {
            let widx = 4 * b + 3 - s;
            let word = ((byte_or_zero(data.as_slice(), 4 * widx) as u32) << 24u32) | ((
            byte_or_zero(data.as_slice(), 4 * widx + 1) as u32) << 16u32) | ((byte_or_zero(
                data.as_slice(),
                4 * widx + 2,
            ) as u32) << 8u32) | (byte_or_zero(data.as_slice(), 4 * widx + 3) as u32);
            let ghost before = stdin@;
            push_le8(&mut stdin, word as u64);
            proof {
                assert(word == be_word(data@, widx as int));
                assert forall|j: int|
                    0 <= j < 32 * b + 8 * (s + 1) implies (#[trigger] stdin@[8 + j])
                    == spec_word_tape_byte(data@, j) by {
                    if j < 32 * b + 8 * s {
                        assert(stdin@[8 + j] == before[8 + j]);
                    } else {
                        let k = j - (32 * (b as int) + 8 * (s as int));
                        assert(stdin@[before.len() + k] == le8(word as u64)[k]);
                        assert(j / 32 == b as int && (j % 32) / 8 == s as int && j % 8 == k);
                        assert(8 + j == before.len() + k);
                    }
                }
            }
            s += 1;
        }
        b += 1;
    }
    proof {
        assert(stdin@.subrange(0, 8) =~= le8(data@.len() as u64));
    }
    stdin
}

/// Decode the first eight 64-bit little-endian words of committed public
/// values into up to 32 digest bytes, each word written back big-endian as
/// a 32-bit value.
pub fn decode_public_values(raw: &[u8]) -> (r: Vec<u8>)
    ensures
        r@.len() == 4 * spec_decoded_chunks(raw@.len() as int),
        forall|j: int|
            0 <= j < r@.len() ==> r@[j] == spec_decoded_byte(raw@, j),
{
    let n = if raw.len() / 8 < 8 {
        raw.len() / 8
    } else {
        8
    };
    let mut out: Vec<u8> = Vec::new();
    let mut c: usize = 0;
    while c < n
        invariant
            n == spec_decoded_chunks(raw@.len() as int),
            8 * n <= raw@.len(),
            c <= n,
            out@.len() == 4 * c,
            forall|j: int| 0 <= j < 4 * c ==> out@[j] == spec_decoded_byte(raw@, j),
        decreases n - c,
    {
        let chunk = vstd::slice::slice_subrange(raw, 8 * c, 8 * c + 8);
        let word = vstd::bytes::u64_from_le_bytes(chunk) as u32;
        out.push(((word >> 24u32) & 0xff) as u8);
        out.push(((word >> 16u32) & 0xff) as u8);
        out.push(((word >> 8u32) & 0xff) as u8);
        out.push((word & 0xff) as u8);
        c += 1;
    }
    out
}

/// How many 8-byte words the decoder consumes: at most eight.
pub open spec fn spec_decoded_chunks(len: int) -> int {
    if len / 8 < 8 {
        len / 8
    } else {
        8
    }
}

/// Byte `j` of the decoded public values: the 32-bit truncation of word
/// `j / 4`, written big-endian.
pub open spec fn spec_decoded_byte(raw: Seq<u8>, j: int) -> u8 {
    let w = (vstd::bytes::spec_u64_from_le_bytes(raw.subrange(8 * (j / 4), 8 * (j / 4) + 8))
        as u32);
    if j % 4 == 0 {
        ((w >> 24u32) & 0xff) as u8
    } else if j % 4 == 1 {
        ((w >> 16u32) & 0xff) as u8
    } else if j % 4 == 2 {
        ((w >> 8u32) & 0xff) as u8
    } else {
        (w & 0xff) as u8
    }
}

/// The big-endian 64-bit value of eight bytes starting at `off`.
pub open spec fn be_u64(p: Seq<u8>, off: int) -> u64 {
    ((p[off] as u64) << 56u64) | ((p[off + 1] as u64) << 48u64) | ((p[off + 2] as u64) << 40u64)
        | ((p[off + 3] as u64) << 32u64) | ((p[off + 4] as u64) << 24u64) | ((p[off + 5] as u64)
        << 16u64) | ((p[off + 6] as u64) << 8u64) | (p[off + 7] as u64)
}

fn read_be_u64(bytes: &[u8], off: usize) -> (r: u64)
    requires
        off + 8 <= bytes@.len(),
    ensures
        r == be_u64(bytes@, off as int),
{
    let total = bytes.len();
    proof {
        assert(off + 8 <= total);
    }
    ((*vstd::slice::slice_index_get(bytes, off) as u64) << 56u64) | ((*vstd::slice::slice_index_get(
        bytes,
        off + 1,
    ) as u64) << 48u64) | ((*vstd::slice::slice_index_get(bytes, off + 2) as u64) << 40u64) | ((
    *vstd::slice::slice_index_get(bytes, off + 3) as u64) << 32u64) | ((
    *vstd::slice::slice_index_get(bytes, off + 4) as u64) << 24u64) | ((
    *vstd::slice::slice_index_get(bytes, off + 5) as u64) << 16u64) | ((
    *vstd::slice::slice_index_get(bytes, off + 6) as u64) << 8u64) | (*vstd::slice::slice_index_get(
        bytes,
        off + 7,
    ) as u64)
}

/// Interpret a 32-byte big-endian scalar as four 64-bit limbs, least
/// significant limb first.
pub fn bytes_be_to_u64_4(bytes: &[u8]) -> (r: [u64; 4])
    requires
        bytes@.len() == 32,
    ensures
        forall|i: int| 0 <= i < 4 ==> r@[i] == be_u64(bytes@, 8 * (3 - i)),
{
    let w0 = read_be_u64(bytes, 0);
    let w1 = read_be_u64(bytes, 8);
    let w2 = read_be_u64(bytes, 16);
    let w3 = read_be_u64(bytes, 24);
    [w3, w2, w1, w0]
}

/// Interpret two 32-byte big-endian coordinates as eight 64-bit limbs,
/// least significant limb of `x` first, then those of `y`.
pub fn bytes_be_to_u64_8(x: &[u8], y: &[u8]) -> (r: [u64; 8])
    requires
        x@.len() == 32,
        y@.len() == 32,
    ensures
        forall|i: int| 0 <= i < 4 ==> r@[i] == be_u64(x@, 8 * (3 - i)),
        forall|i: int| 4 <= i < 8 ==> r@[i] == be_u64(y@, 8 * (7 - i)),
{
    let x0 = read_be_u64(x, 0);
    let x1 = read_be_u64(x, 8);
    let x2 = read_be_u64(x, 16);
    let x3 = read_be_u64(x, 24);
    let y0 = read_be_u64(y, 0);
    let y1 = read_be_u64(y, 8);
    let y2 = read_be_u64(y, 16);
    let y3 = read_be_u64(y, 24);
    [x3, x2, x1, x0, y3, y2, y1, y0]
}

/// A 32-byte curve coordinate as a fixed array, or the reason it is not.
pub fn coord_array(bytes: &[u8]) -> (r: Result<[u8; 32], &'static str>)
    ensures
        r is Ok <==> bytes@.len() == 32,
        r is Ok ==> (r->Ok_0)@ == bytes@,
        r is Err ==> r->Err_0@ == "coordinate must be 32 bytes"@,
{
    if bytes.len() != 32 {
        return Err("coordinate must be 32 bytes");
    }
    let mut arr = [0u8; 32];
    let mut i: usize = 0;
    while i < 32
        invariant
            bytes@.len() == 32,
            i <= 32,
            arr@.len() == 32,
            forall|j: int| 0 <= j < i ==> arr@[j] == bytes@[j],
        decreases 32 - i,
    {
        arr[i] = *vstd::slice::slice_index_get(bytes, i);
        i += 1;
    }
    proof {
        assert(arr@ =~= bytes@);
    }
    Ok(arr)
}

} // verus!
