//! The masked cell for plain data: images without padding and without a
//! destructor.

use vstd::prelude::*;

use crate::barrier::full_fence;
use crate::keygen::{fresh_key, KeygenError};
use crate::xor_intrinsic::{
    lemma_mask_round_trip, lemma_mask_with_zeros, lemma_rekey_keeps_plain,
    lemma_self_mask_is_zero, xor_bytes, zeros,
};

verus! {

/// XORs `data` with `key` in a plain byte loop, and orders the operation
/// against what surrounds it.
pub(crate) fn xor_chunks<const N: usize>(data: &mut [u8; N], key: &[u8; N])
    ensures
        final(data)@ == xor_bytes(old(data)@, key@),
    opens_invariants none
    no_unwind
{
    let mut i: usize = 0;
    while i < N
        invariant
            i <= N,
            forall|j: int| 0 <= j < i ==> data@[j] == old(data)@[j] ^ key@[j],
            forall|j: int| i <= j < N ==> data@[j] == old(data)@[j],
        decreases N - i,
    {
        let data_byte: u8 = data[i];
        let key_byte: u8 = key[i];
        data[i] = data_byte ^ key_byte;
        i += 1;
    }
    full_fence();
}

/// XORs `data` with itself in a plain byte loop, which leaves it all zero,
/// and orders the operation against what surrounds it.
pub(crate) fn wipe_chunks<const N: usize>(data: &mut [u8; N])
    ensures
        final(data)@ == zeros(N as nat),
    opens_invariants none
    no_unwind
{
    let mut i: usize = 0;
    while i < N
        invariant
            i <= N,
            forall|j: int| 0 <= j < i ==> data@[j] == old(data)@[j] ^ old(data)@[j],
            forall|j: int| i <= j < N ==> data@[j] == old(data)@[j],
        decreases N - i,
    {
        let data_byte: u8 = data[i];
        data[i] = data_byte ^ data_byte;
        i += 1;
    }
    proof {
        lemma_self_mask_is_zero(old(data)@);
    }
    full_fence();
}

/// A heap cell that hides an image of `N` bytes of plain data behind a random
/// key.
///
/// The heap holds `image ^ key`; the key lies in the cell itself. Plain data
/// has no destructor, so wiping both buffers is all that discarding the cell
/// takes.
pub struct MangledBox<const N: usize> {
    /// Heap bytes, masked with `key`.
    data: Box<[u8; N]>,
    /// The mask key.
    key: [u8; N],
}

impl<const N: usize> View for MangledBox<N> {
    type V = Seq<u8>;

    /// The image that the cell hides.
    open spec fn view(&self) -> Seq<u8> {
        xor_bytes(self.masked(), self.key())
    }
}

impl<const N: usize> MangledBox<N> {
    /// The bytes as they lie on the heap.
    pub closed spec fn masked(&self) -> Seq<u8> {
        self.data@
    }

    /// The current key.
    pub closed spec fn key(&self) -> Seq<u8> {
        self.key@
    }

    /// Masked bytes, key and image are each `N` bytes long.
    pub proof fn lemma_size(&self)
        ensures
            self.masked().len() == N,
            self.key().len() == N,
            self@.len() == N,
    {
    }

    /// The bytes on the heap are the image XORed with the key, byte for byte.
    pub proof fn lemma_masked_is_image_xor_key(&self)
        ensures
            self.masked() == xor_bytes(self@, self.key()),
    {
        lemma_mask_round_trip(self.masked(), self.key());
    }

    /// A cell with the given key over a zero-filled heap region. The image it
    /// hides is therefore the key itself.
    pub fn from_key(key: [u8; N]) -> (cell: Self)
        ensures
            cell.masked() == zeros(N as nat),
            cell.key() == key@,
            cell@ == key@,
    {
        let cell = MangledBox { data: Box::new([0u8; N]), key };
        proof {
            assert(cell.data@ =~= zeros(N as nat));
            lemma_mask_with_zeros(key@);
        }
        cell
    }

    /// A cell with a fresh random key over a zero-filled heap region. Fails if
    /// and only if the random source does, which it never does for a cell of
    /// no bytes.
    pub fn new() -> (outcome: Result<Self, KeygenError>)
        ensures
            outcome matches Ok(cell) ==> cell.masked() == zeros(N as nat) && cell@ == cell.key(),
            N == 0 ==> outcome is Ok,
    {
        match fresh_key::<N>() {
            Ok(key) => Ok(Self::from_key(key)),
            Err(e) => Err(e),
        }
    }

    /// XORs `diff` into both the masked bytes and the key. The image is
    /// unchanged.
    pub fn rekey_with(&mut self, diff: &[u8; N])
        ensures
            final(self).masked() == xor_bytes(old(self).masked(), diff@),
            final(self).key() == xor_bytes(old(self).key(), diff@),
            final(self)@ == old(self)@,
    {
        proof {
            lemma_rekey_keeps_plain(self.masked(), self.key(), diff@);
        }
        xor_chunks(&mut *self.data, diff);
        xor_chunks(&mut self.key, diff);
    }

    /// Replaces the key by XORing a fresh random difference into both the
    /// masked bytes and the key. The image is unchanged; if the random source
    /// fails, so is the whole cell. A cell of no bytes is always rekeyed.
    pub fn rekey(&mut self) -> (outcome: Result<(), KeygenError>)
        ensures
            final(self)@ == old(self)@,
            N == 0 ==> outcome is Ok,
            outcome is Ok ==> exists|diff: Seq<u8>|
                {
                    &&& diff.len() == N
                    &&& final(self).masked() == #[trigger] xor_bytes(old(self).masked(), diff)
                    &&& final(self).key() == xor_bytes(old(self).key(), diff)
                },
            outcome is Err ==> *final(self) == *old(self),
    {
        match fresh_key::<N>() {
            Ok(diff) => {
                self.rekey_with(&diff);
                Ok(())
            },
            Err(e) => Err(e),
        }
    }

    /// Calls `f` on the unmasked image and masks again what `f` leaves.
    ///
    /// `f` works on a copy of the cell, which alone is unmasked. When `f`
    /// returns, the copy is masked again and its bytes become the cell's; the
    /// copy is wiped when it goes, also where `f` unwinds, in which case the
    /// cell stays as it was.
    pub fn with_unmangled<F, R>(&mut self, f: F) -> (result: R) where F: FnOnce(&mut [u8; N]) -> R
        requires
            forall|p: &mut [u8; N]| (*p)@ == old(self)@ ==> call_requires(f, (p,)),
        ensures
            exists|p: &mut [u8; N]|
                {
                    &&& (*p)@ == old(self)@
                    &&& #[trigger] call_ensures(f, (p,), result)
                    &&& final(self)@ == (*final(p))@
                },
            final(self).key() == old(self).key(),
    {
        let mut scratch = MangledBox { data: Box::new(*self.data), key: self.key };
        xor_chunks(&mut *scratch.data, &scratch.key);
        let place: &mut [u8; N] = &mut *scratch.data;
        assert((*place)@ == old(self)@);
        let result = f(place);
        proof {
            lemma_mask_round_trip(scratch.data@, scratch.key@);
        }
        xor_chunks(&mut *scratch.data, &scratch.key);
        std::mem::swap(&mut self.data, &mut scratch.data);
        result
    }
}

impl<const N: usize> Drop for MangledBox<N> {
    /// Wipes masked bytes and key by XORing each with itself.
    fn drop(&mut self)
        ensures
            final(self).masked() == zeros(N as nat),
            final(self).key() == zeros(N as nat),
        opens_invariants none
        no_unwind
    {
        wipe_chunks(&mut *self.data);
        wipe_chunks(&mut self.key);
    }
}

} // verus!
