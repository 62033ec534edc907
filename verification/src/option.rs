//! A masked cell that may be absent.

use vstd::prelude::*;

use crate::arbitrary::MangledBoxArbitrary;
use crate::keygen::KeygenError;
use crate::xor_intrinsic::xor_bytes;

verus! {

/// Either a masked cell that holds the image of a live value, or nothing.
///
/// While absent, no cell exists: nothing is allocated and the random source
/// is not asked. A cell comes into being when a value is inserted, and the
/// value is written straight into its unmasked bytes.
pub enum MangledOption<const N: usize> {
    /// A cell whose image stands for a live value.
    Present(MangledBoxArbitrary<N>),
    /// No cell.
    Absent,
}

impl<const N: usize> View for MangledOption<N> {
    type V = Option<Seq<u8>>;

    /// The image of the value that is held, if there is one.
    open spec fn view(&self) -> Option<Seq<u8>> {
        match self {
            MangledOption::Present(cell) => Some(cell@),
            MangledOption::Absent => None,
        }
    }
}

impl<const N: usize> MangledOption<N> {
    /// The bytes as they lie on the heap, if a cell exists.
    pub open spec fn masked(&self) -> Option<Seq<u8>> {
        match self {
            MangledOption::Present(cell) => Some(cell.masked()),
            MangledOption::Absent => None,
        }
    }

    /// The current key, if a cell exists.
    pub open spec fn key(&self) -> Option<Seq<u8>> {
        match self {
            MangledOption::Present(cell) => Some(cell.key()),
            MangledOption::Absent => None,
        }
    }

    /// The absent option. Allocates nothing and draws no key.
    pub fn new() -> (option: Self)
        ensures
            option is Absent,
    {
        MangledOption::Absent
    }

    /// An option that holds `value`.
    ///
    /// The value has lain unmasked wherever the caller kept it; to build it
    /// inside the cell, use [`Self::insert_by_ptr`].
    pub fn filled_with_unmasked_value(value: [u8; N]) -> (outcome: Result<Self, KeygenError>)
        ensures
            outcome matches Ok(option) ==> option@ == Some(value@),
            N == 0 ==> outcome is Ok,
    {
        let mut this = Self::new();
        match this.insert_unmasked_value(value) {
            Ok(()) => Ok(this),
            Err(e) => Err(e),
        }
    }

    /// Whether a value is held.
    pub fn is_some(&self) -> (held: bool)
        ensures
            held == (self is Present),
    {
        match self {
            MangledOption::Present(_) => true,
            MangledOption::Absent => false,
        }
    }

    /// Whether no value is held.
    pub fn is_none(&self) -> (empty: bool)
        ensures
            empty == (self is Absent),
    {
        !self.is_some()
    }

    /// Moves the option out and leaves the absent option in its place.
    pub fn take(&mut self) -> (taken: MangledOption<N>)
        ensures
            taken == *old(self),
            *final(self) is Absent,
    {
        let mut taken = MangledOption::Absent;
        std::mem::swap(self, &mut taken);
        taken
    }

    /// Discards the value, if one is held, and leaves the option absent.
    pub fn clear(&mut self)
        ensures
            *final(self) is Absent,
    {
        *self = MangledOption::Absent;
    }

    /// Puts `value` into a new cell, which replaces what was held.
    ///
    /// The value has lain unmasked wherever the caller kept it; to build it
    /// inside the cell, use [`Self::insert_by_ptr`]. If the random source
    /// fails, the option is left as it was; for a value of no bytes it never
    /// fails.
    pub fn insert_unmasked_value(&mut self, value: [u8; N]) -> (outcome: Result<(), KeygenError>)
        ensures
            outcome is Ok ==> final(self)@ == Some(value@),
            outcome is Err ==> *final(self) == *old(self),
            N == 0 ==> outcome is Ok,
    {
        let write = |place: &mut [u8; N]|
            ensures
                *final(place) == value,
            {
                *place = value;
            };
        self.insert_by_ptr(write)
    }

    /// Lets `f` write a value into the unmasked bytes of `cell`, and puts the
    /// cell in the place of what was held.
    ///
    /// `f` finds the image that `cell` hides; the key of `cell` stays.
    pub fn insert_cell_by_ptr<F>(&mut self, cell: MangledBoxArbitrary<N>, f: F) where
        F: FnOnce(&mut [u8; N]),
        requires
            forall|place: &mut [u8; N]| (*place)@ == cell@ ==> call_requires(f, (place,)),
        ensures
            exists|place: &mut [u8; N]|
                {
                    &&& (*place)@ == cell@
                    &&& #[trigger] call_ensures(f, (place,), ())
                    &&& final(self)@ == Some((*final(place))@)
                },
            final(self).key() == Some(cell.key()),
    {
        let mut new_content_box = cell;
        new_content_box.with_unmangled(f);
        *self = MangledOption::Present(new_content_box);
    }

    /// Makes a new cell, lets `f` write a value into its unmasked bytes, and
    /// puts the cell in the place of what was held.
    ///
    /// `f` finds the bytes of a cell that hides no value yet: whatever the new
    /// key happens to be. If the random source fails, `f` is not called and
    /// the option is left as it was; for a cell of no bytes it never fails.
    pub fn insert_by_ptr<F>(&mut self, f: F) -> (outcome: Result<(), KeygenError>) where
        F: FnOnce(&mut [u8; N]),
        requires
            forall|place: &mut [u8; N]| call_requires(f, (place,)),
        ensures
            outcome is Ok ==> exists|place: &mut [u8; N]|
                {
                    &&& #[trigger] call_ensures(f, (place,), ())
                    &&& final(self)@ == Some((*final(place))@)
                    &&& final(self).key() == Some((*place)@)
                },
            outcome is Err ==> *final(self) == *old(self),
            N == 0 ==> outcome is Ok,
    {
        match MangledBoxArbitrary::new() {
            Ok(cell) => {
                self.insert_cell_by_ptr(cell, f);
                Ok(())
            },
            Err(e) => Err(e),
        }
    }

    /// Calls `f` on the unmasked image if a value is held, and `default`
    /// otherwise.
    ///
    /// There is no read-only form: reading takes unmasking, which is a
    /// mutation.
    pub fn map_mut_or_else<F, G, R>(&mut self, default: G, f: F) -> (result: R) where
        F: FnOnce(&mut [u8; N]) -> R,
        G: FnOnce() -> R,
        requires
            *old(self) is Absent ==> call_requires(default, ()),
            forall|place: &mut [u8; N]| old(self)@ == Some((*place)@) ==> call_requires(f, (place,)),
        ensures
            *old(self) is Absent ==> *final(self) is Absent && call_ensures(default, (), result),
            *old(self) is Present ==> exists|place: &mut [u8; N]|
                {
                    &&& old(self)@ == Some((*place)@)
                    &&& #[trigger] call_ensures(f, (place,), result)
                    &&& final(self)@ == Some((*final(place))@)
                },
            final(self).key() == old(self).key(),
    {
        match self {
            MangledOption::Present(mangled_box) => mangled_box.with_unmangled(f),
            MangledOption::Absent => default(),
        }
    }

    /// Calls `f` on the unmasked image if a value is held.
    pub fn map_mut<F, R>(&mut self, f: F) -> (result: Option<R>) where
        F: FnOnce(&mut [u8; N]) -> R,
        requires
            forall|place: &mut [u8; N]| old(self)@ == Some((*place)@) ==> call_requires(f, (place,)),
        ensures
            *old(self) is Absent ==> *final(self) is Absent && result is None,
            *old(self) is Present ==> exists|place: &mut [u8; N]|
                {
                    &&& old(self)@ == Some((*place)@)
                    &&& result is Some
                    &&& #[trigger] call_ensures(f, (place,), result->0)
                    &&& final(self)@ == Some((*final(place))@)
                },
            final(self).key() == old(self).key(),
    {
        match self {
            MangledOption::Present(mangled_box) => {
                let inner = mangled_box.with_unmangled(f);
                let result = Some(inner);
                assert(result->0 == inner);
                result
            },
            MangledOption::Absent => None,
        }
    }

    /// XORs `diff` into both the masked bytes and the key of the cell, if
    /// there is one; the value that is held stays the same. Without a cell
    /// there is nothing to do.
    pub fn rekey_with(&mut self, diff: &[u8; N])
        ensures
            final(self)@ == old(self)@,
            final(self).masked() == match old(self).masked() {
                Some(masked) => Some(xor_bytes(masked, diff@)),
                None => None,
            },
            final(self).key() == match old(self).key() {
                Some(key) => Some(xor_bytes(key, diff@)),
                None => None,
            },
    {
        match self {
            MangledOption::Present(mangled_box) => {
                mangled_box.rekey_with(diff);
            },
            MangledOption::Absent => {},
        }
    }

    /// Rekeys the cell, if there is one, with a fresh random difference; the
    /// value that is held stays the same. Without a cell there is nothing to
    /// do, and nothing can fail. If the random source fails, the option is
    /// left as it was.
    pub fn rekey(&mut self) -> (outcome: Result<(), KeygenError>)
        ensures
            final(self)@ == old(self)@,
            *old(self) is Absent ==> outcome is Ok && *final(self) is Absent,
            *old(self) is Present && outcome is Ok ==> exists|diff: Seq<u8>|
                {
                    &&& diff.len() == N
                    &&& final(self).masked() == Some(
                        #[trigger] xor_bytes(old(self).masked()->0, diff),
                    )
                    &&& final(self).key() == Some(xor_bytes(old(self).key()->0, diff))
                },
            outcome is Err ==> *final(self) == *old(self),
    {
        match self {
            MangledOption::Present(mangled_box) => {
                let ghost before = *mangled_box;
                let outcome = mangled_box.rekey();
                proof {
                    if outcome is Ok {
                        let diff = choose|diff: Seq<u8>|
                            {
                                &&& diff.len() == N
                                &&& mangled_box.masked() == #[trigger] xor_bytes(
                                    before.masked(),
                                    diff,
                                )
                                &&& mangled_box.key() == xor_bytes(before.key(), diff)
                            };
                        assert(old(self).masked()->0 == before.masked());
                        assert(old(self).key()->0 == before.key());
                        assert(mangled_box.masked() == xor_bytes(old(self).masked()->0, diff));
                    }
                }
                outcome
            },
            MangledOption::Absent => Ok(()),
        }
    }

    /// The masked bytes of the cell, open to change, or nothing if the option
    /// is absent. What is written there is XORed with the key when the value
    /// is next unmasked.
    pub fn as_ptr(&mut self) -> (place: Option<&mut [u8; N]>)
        ensures
            *old(self) is Absent ==> place is None && *final(self) is Absent,
            *old(self) is Present ==> {
                &&& place matches Some(bytes)
                &&& old(self).masked() == Some((*bytes)@)
                &&& final(self).masked() == Some((*final(bytes))@)
            },
            final(self).key() == old(self).key(),
    {
        match self {
            MangledOption::Present(mangled_box) => Some(mangled_box.as_mut_masked()),
            MangledOption::Absent => None,
        }
    }
}

impl<const N: usize> Drop for MangledOption<N> {
    /// Ends the life of the value that is held, if there is one. The cell
    /// then wipes itself.
    fn drop(&mut self)
        ensures
            final(self).masked() == old(self).masked(),
            final(self).key() == old(self).key(),
        opens_invariants none
        no_unwind
    {
        match self {
            MangledOption::Present(mangled_box) => {
                mangled_box.drop_in_place();
            },
            MangledOption::Absent => {},
        }
    }
}

impl<const N: usize> Default for MangledOption<N> {
    /// The absent option.
    fn default() -> (option: Self)
        ensures
            option is Absent,
    {
        MangledOption::Absent
    }
}

} // verus!
