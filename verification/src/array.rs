//! The public fixed-size array: a non-growable buffer of elements whose
//! length is stored in a narrow length type, with an unallocated empty state.

use vstd::prelude::*;

use crate::length::{InvalidLength, ValidLength};
use crate::non_empty_array::NonEmptyFixedArray;

verus! {

/// Relies on `Vec::into_boxed_slice`: the result holds exactly the vector's
/// elements.
#[verifier::external_body]
fn vec_into_boxed_slice<T>(v: Vec<T>) -> (r: Box<[T]>)
    ensures
        r@ == v@,
{
    v.into_boxed_slice()
}

/// Shortens the rejected input carried by an [`InvalidLength`] error to at
/// most `max_len` elements, dropping the remainder.
pub fn truncate_vec<T>(err: InvalidLength<T>, max_len: usize) -> (r: Vec<T>)
    ensures
        max_len as nat <= err@.len() ==> r@ == err@.take(max_len as int),
        max_len as nat > err@.len() ==> r@ == err@,
{
    let mut value = err.get_inner();
    value.truncate(max_len);
    value
}

/// A fixed-size array whose length is stored in a [`ValidLength`] type.
///
/// The array is immutable in structure: elements can be overwritten, but none
/// can be inserted or removed without converting back to a [`Vec`]. The empty
/// state owns no allocation.
#[derive(Debug)]
pub struct FixedArray<T, LenT: ValidLength = u32> {
    inner: Option<NonEmptyFixedArray<T, LenT>>,
}

impl<T, LenT: ValidLength> View for FixedArray<T, LenT> {
    type V = Seq<T>;

    closed spec fn view(&self) -> Seq<T> {
        match self.inner {
            Some(a) => a@,
            None => Seq::empty(),
        }
    }
}

impl<T, LenT: ValidLength> FixedArray<T, LenT> {
    /// Alias to [`FixedArray::empty`].
    pub fn new() -> (r: Self)
        ensures
            r@ == Seq::<T>::empty(),
    {
        Self::empty()
    }

    /// Creates a new, empty array that cannot be pushed to and owns no
    /// allocation.
    pub fn empty() -> (r: Self)
        ensures
            r@ == Seq::<T>::empty(),
    {
        FixedArray { inner: None }
    }

    /// Takes ownership of a vector's buffer without copying. Succeeds exactly
    /// when the vector's length does not exceed the length type's maximum;
    /// otherwise the vector comes back unchanged inside the error.
    pub fn try_from_vec(vec: Vec<T>) -> (r: Result<Self, InvalidLength<T>>)
        ensures
            r is Ok <==> vec@.len() <= LenT::spec_max(),
            r matches Ok(a) ==> a@ == vec@,
            r matches Err(e) ==> e@ == vec@ && e.spec_target_name() == LenT::spec_target_name(),
    {
        if vec.len() == 0 {
            assert(vec@ =~= Seq::<T>::empty());
            return Ok(FixedArray { inner: None });
        }
        match NonEmptyFixedArray::try_from_vec(vec) {
            Ok(a) => Ok(FixedArray { inner: Some(a) }),
            Err(e) => Err(e),
        }
    }

    /// Takes ownership of a boxed slice's buffer, as
    /// [`FixedArray::try_from_vec`] does for a vector.
    pub fn try_from_boxed_slice(boxed: Box<[T]>) -> (r: Result<Self, InvalidLength<T>>)
        ensures
            r is Ok <==> boxed@.len() <= LenT::spec_max(),
            r matches Ok(a) ==> a@ == boxed@,
            r matches Err(e) ==> e@ == boxed@ && e.spec_target_name() == LenT::spec_target_name(),
    {
        Self::try_from_vec(boxed.into_vec())
    }

    /// Converts a vector into a fixed array, truncating it first if it is
    /// longer than the length type's maximum. This is a deliberately lossy,
    /// infallible policy; use [`FixedArray::try_from_vec`] to reject instead.
    pub fn from_vec_trunc(vec: Vec<T>) -> (r: Self)
        ensures
            vec@.len() <= LenT::spec_max() ==> r@ == vec@,
            vec@.len() > LenT::spec_max() ==> r@ == vec@.take(LenT::spec_max() as int),
    {
        match Self::try_from_vec(vec) {
            Ok(v) => v,
            Err(err) => {
                let max_len = LenT::max_value().to_usize();
                let shortened = truncate_vec(err, max_len);
                match Self::try_from_vec(shortened) {
                    Ok(v) => v,
                    Err(_) => {
                        proof {
                            assert(false);
                        }
                        vstd::pervasive::unreached()
                    },
                }
            },
        }
    }

    /// The length, in the stored length type.
    pub fn len(&self) -> (r: LenT)
        ensures
            r.as_nat() == self@.len(),
    {
        match &self.inner {
            None => LenT::zero(),
            Some(a) => a.small_len(),
        }
    }

    /// True exactly when the array holds no elements.
    pub fn is_empty(&self) -> (r: bool)
        ensures
            r == (self@.len() == 0),
    {
        self.len().to_usize() == 0
    }

    /// Converts the array back to a vector, handing over the buffer without
    /// copying.
    pub fn into_vec(self) -> (r: Vec<T>)
        ensures
            r@ == self@,
    {
        match self.inner {
            None => Vec::new(),
            Some(a) => a.into_vec(),
        }
    }

    /// Converts the array back to a boxed slice, handing over the buffer.
    pub fn into_boxed_slice(self) -> (r: Box<[T]>)
        ensures
            r@ == self@,
    {
        vec_into_boxed_slice(self.into_vec())
    }

    /// A borrowed view of the whole array.
    pub fn as_slice(&self) -> (r: &[T])
        ensures
            r@ == self@,
    {
        match &self.inner {
            None => &[],
            Some(a) => a.as_slice(),
        }
    }

    /// A borrowed element.
    pub fn get(&self, index: usize) -> (r: &T)
        requires
            index < self@.len(),
        ensures
            *r == self@[index as int],
    {
        match &self.inner {
            None => vstd::pervasive::unreached(),
            Some(a) => a.get(index),
        }
    }

    /// Overwrites one element in place. Elements can change; the length
    /// cannot.
    pub fn set(&mut self, index: usize, value: T)
        requires
            index < old(self)@.len(),
        ensures
            final(self)@ == old(self)@.update(index as int, value),
    {
        match &mut self.inner {
            None => {
                proof {
                    assert(false);
                }
            },
            Some(a) => a.set(index, value),
        }
    }
}

impl<T, LenT: ValidLength> Default for FixedArray<T, LenT> {
    /// Creates a new, empty array, as [`FixedArray::empty`] does.
    fn default() -> (r: Self)
        ensures
            r@ == Seq::<T>::empty(),
    {
        Self::empty()
    }
}

impl<T: Clone, LenT: ValidLength> Clone for FixedArray<T, LenT> {
    /// Allocates a fresh buffer of the same length and clones every element
    /// into it; the empty state is copied without allocating.
    fn clone(&self) -> (r: Self)
        ensures
            r@.len() == self@.len(),
            forall|i: int|
                0 <= i < self@.len() ==> vstd::pervasive::cloned::<T>(self@[i], #[trigger] r@[i]),
    {
        match &self.inner {
            None => FixedArray { inner: None },
            Some(a) => FixedArray { inner: Some(a.clone()) },
        }
    }
}

} // verus!
