//! The borrowed, non-owning string variant: a reference to string data that
//! lives for the whole program. It never allocates or frees.

use vstd::prelude::*;
use vstd::string::StringSliceAdditionalSpecFns;

use crate::length::ValidLength;

verus! {

/// A `&'static str` paired with its byte length stored in `LenT`.
#[derive(Debug)]
pub struct StaticStr<LenT: ValidLength> {
    s: &'static str,
    len: LenT,
}

impl<LenT: ValidLength> View for StaticStr<LenT> {
    type V = Seq<char>;

    closed spec fn view(&self) -> Seq<char> {
        self.s@
    }
}

impl<LenT: ValidLength> StaticStr<LenT> {
    /// The stored length always equals the byte length of the referenced
    /// string, which fits the length type.
    #[verifier::type_invariant]
    closed spec fn wf(self) -> bool {
        &&& self.len.as_nat() == self.s.spec_bytes().len()
        &&& self.s.spec_bytes().len() <= LenT::spec_max()
    }

    /// The UTF-8 bytes of the referenced string.
    pub closed spec fn spec_content(self) -> Seq<u8> {
        self.s.spec_bytes()
    }

    /// Wraps a static string whose byte length fits the length type; no
    /// allocation, no copy.
    pub fn from_static_str(src: &'static str) -> (r: Self)
        requires
            src.spec_bytes().len() <= LenT::spec_max(),
        ensures
            r@ == src@,
            r.spec_content() == src.spec_bytes(),
    {
        proof {
            LenT::lemma_valid_length_bounds();
        }
        let len = match LenT::from_usize(src.len()) {
            Some(len) => len,
            None => vstd::pervasive::unreached(),
        };
        StaticStr { s: src, len }
    }

    /// The referenced string itself, with its unbounded lifetime.
    pub fn as_str(&self) -> (r: &'static str)
        ensures
            r@ == self@,
            r.spec_bytes() == self.spec_content(),
    {
        self.s
    }

    /// The byte length, in the stored length type.
    pub fn len(&self) -> (r: LenT)
        ensures
            r.as_nat() == self.spec_content().len(),
            self.spec_content().len() <= LenT::spec_max(),
    {
        proof {
            use_type_invariant(self);
        }
        self.len
    }
}

impl<LenT: ValidLength> Clone for StaticStr<LenT> {
    /// A plain copy: this variant owns nothing.
    fn clone(&self) -> (r: Self)
        ensures
            r == *self,
    {
        proof {
            use_type_invariant(self);
        }
        StaticStr { s: self.s, len: self.len }
    }
}

impl<LenT: ValidLength> Copy for StaticStr<LenT> {

}

} // verus!
