//! The mask primitive: XOR of one byte region with another, byte by byte.
//!
//! Masking is its own inverse, and a region masked with itself is all zero;
//! both facts are proved here, for every length.

use vstd::prelude::*;

verus! {

/// `data` with each byte XORed with the byte of `key` at the same place.
pub open spec fn xor_bytes(data: Seq<u8>, key: Seq<u8>) -> Seq<u8>
    recommends
        data.len() <= key.len(),
{
    Seq::new(data.len(), |i: int| data[i] ^ key[i])
}

/// `n` zero bytes.
pub open spec fn zeros(n: nat) -> Seq<u8> {
    Seq::new(n, |i: int| 0u8)
}

/// XORs each of the `N` bytes of `data` with the byte of `key` at the same
/// place. Gives no ordering guarantee of its own.
pub fn xor_chunks_intrinsic_baseline<const N: usize>(data: &mut [u8; N], key: &[u8; N])
    ensures
        final(data)@ == xor_bytes(old(data)@, key@),
    opens_invariants none
    no_unwind
{
    let mut index: usize = 0;
    while index < N
        invariant
            index <= N,
            forall|j: int| 0 <= j < index ==> data@[j] == old(data)@[j] ^ key@[j],
            forall|j: int| index <= j < N ==> data@[j] == old(data)@[j],
        decreases N - index,
    {
        let key_byte: u8 = key[index];
        data[index] = data[index] ^ key_byte;
        index += 1;
    }
}

/// XORs each of the `N` bytes of `data` with itself: the case of
/// [`xor_chunks_intrinsic_baseline`] in which data and key are one region.
///
/// Each byte is loaded, XORed with itself and stored, so the region ends up
/// all zero.
pub fn xor_chunks_intrinsic_aliased<const N: usize>(data: &mut [u8; N])
    ensures
        final(data)@ == xor_bytes(old(data)@, old(data)@),
        final(data)@ == zeros(N as nat),
    opens_invariants none
    no_unwind
{
    let mut index: usize = 0;
    while index < N
        invariant
            index <= N,
            forall|j: int| 0 <= j < index ==> data@[j] == old(data)@[j] ^ old(data)@[j],
            forall|j: int| index <= j < N ==> data@[j] == old(data)@[j],
        decreases N - index,
    {
        let byte: u8 = data[index];
        data[index] = byte ^ byte;
        index += 1;
    }
    proof {
        lemma_self_mask_is_zero(old(data)@);
    }
}

/// Round trip: masking with `key` twice gives back `data`, byte for byte.
pub proof fn lemma_mask_round_trip(data: Seq<u8>, key: Seq<u8>)
    ensures
        xor_bytes(xor_bytes(data, key), key) == data,
{
    assert forall|i: int| 0 <= i < data.len() implies xor_bytes(xor_bytes(data, key), key)[i]
        == data[i] by {
        let d = data[i];
        let k = key[i];
        assert((d ^ k) ^ k == d) by (bit_vector);
    }
}

/// Self-mask zeroing: a region masked with itself is all zero.
pub proof fn lemma_self_mask_is_zero(data: Seq<u8>)
    ensures
        xor_bytes(data, data) == zeros(data.len()),
{
    assert forall|i: int| 0 <= i < data.len() implies xor_bytes(data, data)[i] == 0u8 by {
        let d = data[i];
        assert(d ^ d == 0u8) by (bit_vector);
    }
}

/// Masking with zeros changes nothing, and masking zeros gives the key.
pub proof fn lemma_mask_with_zeros(data: Seq<u8>)
    ensures
        xor_bytes(data, zeros(data.len())) == data,
        xor_bytes(zeros(data.len()), data) == data,
{
    assert forall|i: int| 0 <= i < data.len() implies xor_bytes(data, zeros(data.len()))[i]
        == data[i] && xor_bytes(zeros(data.len()), data)[i] == data[i] by {
        let d = data[i];
        assert(d ^ 0u8 == d && 0u8 ^ d == d) by (bit_vector);
    }
}

/// XORing one difference into both the masked bytes and the key leaves what
/// they hide unchanged.
pub proof fn lemma_rekey_keeps_plain(masked: Seq<u8>, key: Seq<u8>, diff: Seq<u8>)
    requires
        masked.len() == key.len(),
    ensures
        xor_bytes(xor_bytes(masked, diff), xor_bytes(key, diff)) == xor_bytes(masked, key),
{
    assert forall|i: int| 0 <= i < masked.len() implies xor_bytes(
        xor_bytes(masked, diff),
        xor_bytes(key, diff),
    )[i] == xor_bytes(masked, key)[i] by {
        let m = masked[i];
        let k = key[i];
        let d = diff[i];
        assert((m ^ d) ^ (k ^ d) == m ^ k) by (bit_vector);
    }
}

/// The masked bytes and the key after each of `diffs` in turn has been XORed
/// into both.
pub open spec fn rekeyed(masked: Seq<u8>, key: Seq<u8>, diffs: Seq<Seq<u8>>) -> (Seq<u8>, Seq<u8>)
    decreases diffs.len(),
{
    if diffs.len() == 0 {
        (masked, key)
    } else {
        let before = rekeyed(masked, key, diffs.drop_last());
        (xor_bytes(before.0, diffs.last()), xor_bytes(before.1, diffs.last()))
    }
}

/// Rekeying preserves what is hidden: however many differences are XORed into
/// masked bytes and key, and whatever they are, the two still hide the same
/// image.
pub proof fn lemma_rekeyed_keeps_plain(masked: Seq<u8>, key: Seq<u8>, diffs: Seq<Seq<u8>>)
    requires
        masked.len() == key.len(),
    ensures
        rekeyed(masked, key, diffs).0.len() == masked.len(),
        rekeyed(masked, key, diffs).1.len() == key.len(),
        xor_bytes(rekeyed(masked, key, diffs).0, rekeyed(masked, key, diffs).1) == xor_bytes(
            masked,
            key,
        ),
    decreases diffs.len(),
{
    if diffs.len() > 0 {
        let before = rekeyed(masked, key, diffs.drop_last());
        lemma_rekeyed_keeps_plain(masked, key, diffs.drop_last());
        lemma_rekey_keeps_plain(before.0, before.1, diffs.last());
    }
}

} // verus!
