//! A helper trait for the truncating conversions, so that call sites that may
//! lose data name the truncation explicitly.

use vstd::prelude::*;
use vstd::utf8::encode_utf8;

use crate::array::FixedArray;
use crate::length::ValidLength;
use crate::string::{largest_boundary_at_most, FixedString};

verus! {

/// Seals [`TruncatingInto`]: only the growable source types chosen here can
/// ever implement it.
pub trait Sealed {}

impl Sealed for String {}

impl<T> Sealed for Vec<T> {}

/// A conversion that may truncate its input to fit the target's length type;
/// importing this trait makes the possible truncation obvious in user code.
pub trait TruncatingInto<T>: Sealed + Sized {
    /// What the conversion promises of its result: each implementation
    /// states here the truncation policy of the constructor it applies.
    spec fn spec_trunc(self, r: T) -> bool;

    fn trunc_into(self) -> (r: T)
        ensures
            self.spec_trunc(r),
    ;
}

impl<LenT: ValidLength> TruncatingInto<FixedString<LenT>> for String {
    /// The policy of [`FixedString::from_string_trunc`]: the result holds the
    /// largest char-boundary prefix of the input's bytes that fits the length
    /// type, an input that already fits comes back unchanged, and the result
    /// is inline exactly when its bytes fit the inline capacity, never the
    /// borrowed static representation.
    open spec fn spec_trunc(self, r: FixedString<LenT>) -> bool {
        &&& r.spec_content() == encode_utf8(self@).take(
            largest_boundary_at_most(encode_utf8(self@), LenT::spec_max() as int),
        )
        &&& encode_utf8(self@).len() <= LenT::spec_max() ==> r@ == self@
        &&& (r.spec_is_inline() <==> r.spec_content().len() <= LenT::spec_inline_capacity())
        &&& !r.spec_is_static()
    }

    /// Converts as [`FixedString::from_string_trunc`] does.
    fn trunc_into(self) -> (r: FixedString<LenT>) {
        FixedString::from_string_trunc(self)
    }
}

impl<T, LenT: ValidLength> TruncatingInto<FixedArray<T, LenT>> for Vec<T> {
    /// The policy of [`FixedArray::from_vec_trunc`]: the result equals the
    /// input when it fits the length type, and its longest fitting prefix
    /// otherwise.
    open spec fn spec_trunc(self, r: FixedArray<T, LenT>) -> bool {
        &&& self@.len() <= LenT::spec_max() ==> r@ == self@
        &&& self@.len() > LenT::spec_max() ==> r@ == self@.take(LenT::spec_max() as int)
    }

    /// Converts as [`FixedArray::from_vec_trunc`] does.
    fn trunc_into(self) -> (r: FixedArray<T, LenT>) {
        FixedArray::from_vec_trunc(self)
    }
}

} // verus!
