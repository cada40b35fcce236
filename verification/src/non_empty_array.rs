//! The owning, always-non-empty inner form of the fixed array: a buffer of
//! elements paired with its length stored in the chosen length type.

use vstd::prelude::*;

use crate::length::{InvalidLength, ValidLength};

verus! {

/// A fixed-length, non-empty buffer of `T`, whose length is stored in `LenT`.
///
/// Exactly one owner exists for the buffer; the public [`crate::FixedArray`]
/// wraps this type and adds the unallocated empty state.
#[derive(Debug)]
pub(crate) struct NonEmptyFixedArray<T, LenT: ValidLength> {
    vec: Vec<T>,
    len: LenT,
}

impl<T, LenT: ValidLength> View for NonEmptyFixedArray<T, LenT> {
    type V = Seq<T>;

    closed spec fn view(&self) -> Seq<T> {
        self.vec@
    }
}

impl<T, LenT: ValidLength> NonEmptyFixedArray<T, LenT> {
    /// The stored length always equals the buffer's length, is at least 1,
    /// and fits the length type.
    #[verifier::type_invariant]
    closed spec fn wf(self) -> bool {
        &&& self.len.as_nat() == self.vec@.len()
        &&& 1 <= self.vec@.len() <= LenT::spec_max()
    }

    /// Takes ownership of a non-empty buffer, without copying; fails exactly
    /// when the buffer's length exceeds the length type's maximum, handing
    /// the buffer back inside the error.
    pub(crate) fn try_from_vec(vec: Vec<T>) -> (r: Result<Self, InvalidLength<T>>)
        requires
            vec@.len() >= 1,
        ensures
            r is Ok <==> vec@.len() <= LenT::spec_max(),
            r matches Ok(a) ==> a@ == vec@,
            r matches Err(e) ==> e@ == vec@ && e.spec_target_name() == LenT::spec_target_name(),
    {
        match LenT::from_usize(vec.len()) {
            Some(len) => Ok(NonEmptyFixedArray { vec, len }),
            None => Err(InvalidLength::new(LenT::target_name(), vec)),
        }
    }

    /// The length, in the stored length type.
    pub(crate) fn small_len(&self) -> (r: LenT)
        ensures
            r.as_nat() == self@.len(),
            1 <= self@.len() <= LenT::spec_max(),
    {
        proof {
            use_type_invariant(self);
        }
        self.len
    }

    /// The length, as a size.
    pub(crate) fn len(&self) -> (r: usize)
        ensures
            r == self@.len(),
            1 <= self@.len() <= LenT::spec_max(),
    {
        proof {
            use_type_invariant(self);
        }
        self.vec.len()
    }

    /// A borrowed view of the whole buffer.
    pub(crate) fn as_slice(&self) -> (r: &[T])
        ensures
            r@ == self@,
    {
        self.vec.as_slice()
    }

    /// A borrowed element.
    pub(crate) fn get(&self, index: usize) -> (r: &T)
        requires
            index < self@.len(),
        ensures
            *r == self@[index as int],
    {
        &self.vec[index]
    }

    /// Overwrites one element in place; the length cannot change.
    pub(crate) fn set(&mut self, index: usize, value: T)
        requires
            index < old(self)@.len(),
        ensures
            final(self)@ == old(self)@.update(index as int, value),
    {
        proof {
            use_type_invariant(&*self);
        }
        self.vec[index] = value;
    }

    /// Hands the buffer back to the caller, consuming the array.
    pub(crate) fn into_vec(self) -> (r: Vec<T>)
        ensures
            r@ == self@,
            1 <= self@.len() <= LenT::spec_max(),
    {
        proof {
            use_type_invariant(&self);
        }
        self.vec
    }
}

impl<T: Clone, LenT: ValidLength> Clone for NonEmptyFixedArray<T, LenT> {
    /// Allocates a fresh buffer of the same length and clones every element
    /// into it.
    fn clone(&self) -> (r: Self)
        ensures
            r@.len() == self@.len(),
            forall|i: int|
                0 <= i < self@.len() ==> vstd::pervasive::cloned::<T>(self@[i], #[trigger] r@[i]),
    {
        proof {
            use_type_invariant(self);
        }
        NonEmptyFixedArray { vec: self.vec.clone(), len: self.len }
    }
}

} // verus!
