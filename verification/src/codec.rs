//! The byte codec of the resource stager and result decoder: input values
//! are serialized little-endian into the source buffer, and raw bytes read
//! back from the readback buffer are reinterpreted as 32-bit results.

use vstd::prelude::*;

verus! {

/// The unsigned 32-bit value stored little-endian at word index `i`.
pub open spec fn le_u32_at(bytes: Seq<u8>, i: int) -> nat {
    (bytes[4 * i] as nat) + 0x100 * (bytes[4 * i + 1] as nat) + 0x10000 * (bytes[4 * i + 2] as nat)
        + 0x1000000 * (bytes[4 * i + 3] as nat)
}

/// `bytes` is exactly the little-endian serialization of `words`: four bytes
/// per word, element count preserved, index correspondence kept.
pub open spec fn decodes_to(bytes: Seq<u8>, words: Seq<u32>) -> bool {
    &&& bytes.len() == 4 * words.len()
    &&& forall|i: int|
        0 <= i < words.len() ==> (#[trigger] words[i]) as nat == le_u32_at(bytes, i)
}

/// Serialize an input sequence into the bytes uploaded to the source buffer
/// at creation: exactly four bytes per element, little-endian.
pub fn encode_input(values: &Vec<u32>) -> (r: Vec<u8>)
    ensures
        decodes_to(r@, values@),
        r@.len() == 4 * values@.len(),
{
    let mut out: Vec<u8> = Vec::new();
    let mut i: usize = 0;
    while i < values.len()
        invariant
            i <= values.len(),
            out@.len() == 4 * i,
            forall|j: int| 0 <= j < i ==> (#[trigger] values@[j]) as nat == le_u32_at(out@, j),
        decreases values.len() - i,
    {
        let v = values[i];
        let b0 = (v % 256) as u8;
        let v1 = v / 256;
        let b1 = (v1 % 256) as u8;
        let v2 = v1 / 256;
        let b2 = (v2 % 256) as u8;
        let b3 = (v2 / 256) as u8;
        assert(v2 / 256 < 256);
        assert(v as nat == (b0 as nat) + 0x100 * (b1 as nat) + 0x10000 * (b2 as nat) + 0x1000000
            * (b3 as nat));
        out.push(b0);
        out.push(b1);
        out.push(b2);
        out.push(b3);
        assert forall|j: int| 0 <= j < i + 1 implies (#[trigger] values@[j]) as nat == le_u32_at(
            out@,
            j,
        ) by {
            assert(out@[4 * j] == out@[4 * j] && out@[4 * j + 1] == out@[4 * j + 1] && out@[4 * j
                + 2] == out@[4 * j + 2] && out@[4 * j + 3] == out@[4 * j + 3]);
        }
        i = i + 1;
    }
    out
}

/// Reinterpret the raw bytes copied out of the mapped readback buffer as the
/// typed result sequence: one 32-bit value per four bytes, little-endian,
/// element count preserved.
pub fn decode_results(bytes: &Vec<u8>) -> (r: Vec<u32>)
    requires
        bytes@.len() % 4 == 0,
    ensures
        decodes_to(bytes@, r@),
        r@.len() == bytes@.len() / 4,
{
    let n = bytes.len() / 4;
    let mut out: Vec<u32> = Vec::new();
    let mut i: usize = 0;
    while i < n
        invariant
            i <= n,
            n == bytes@.len() / 4,
            bytes@.len() % 4 == 0,
            bytes@.len() <= usize::MAX,
            out@.len() == i,
            forall|j: int| 0 <= j < i ==> (#[trigger] out@[j]) as nat == le_u32_at(bytes@, j),
        decreases n - i,
    {
        proof {
            assert(bytes@.len() == 4 * n);
            assert(4 * (i as int) + 3 < bytes@.len());
        }
        let b0 = bytes[4 * i] as u32;
        let b1 = bytes[4 * i + 1] as u32;
        let b2 = bytes[4 * i + 2] as u32;
        let b3 = bytes[4 * i + 3] as u32;
        let v = b0 + 0x100 * b1 + 0x10000 * b2 + 0x1000000 * b3;
        out.push(v);
        i = i + 1;
    }
    out
}

/// Decoding is a function of the bytes: one byte range decodes to exactly
/// one result sequence.
pub proof fn lemma_decode_unique(bytes: Seq<u8>, w1: Seq<u32>, w2: Seq<u32>)
    requires
        decodes_to(bytes, w1),
        decodes_to(bytes, w2),
    ensures
        w1 == w2,
{
    assert forall|i: int| 0 <= i < w1.len() implies w1[i] == w2[i] by {
        assert(w1[i] as nat == le_u32_at(bytes, i));
        assert(w2[i] as nat == le_u32_at(bytes, i));
    }
    assert(w1 =~= w2);
}

/// Round trip: decoding the exact bytes that encode a sequence yields that
/// sequence back unchanged.
pub proof fn lemma_codec_round_trip(bytes: Seq<u8>, values: Seq<u32>, decoded: Seq<u32>)
    requires
        decodes_to(bytes, values),
        decodes_to(bytes, decoded),
    ensures
        decoded == values,
{
    lemma_decode_unique(bytes, values, decoded);
}

} // verus!
