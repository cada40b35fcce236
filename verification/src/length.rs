//! The length-type abstraction: a closed set of unsigned integer widths that
//! can serve as a collection's length field, and the error values returned
//! when a source length does not fit the chosen width.

use vstd::prelude::*;

verus! {

/// Seals [`ValidLength`]: only the integer widths chosen here can ever
/// implement it.
pub trait LengthSealed {}

impl LengthSealed for u8 {}

impl LengthSealed for u16 {}

impl LengthSealed for u32 {}

/// An unsigned integer width usable as a collection's length field.
///
/// Implemented for `u8`, `u16` and `u32`. Every length value `v` satisfies
/// `0 <= v.as_nat() <= Self::spec_max()`, and `Self::spec_max()` always fits
/// in a `usize`.
pub trait ValidLength: LengthSealed + Copy + Sized {
    /// The length value as a mathematical integer.
    spec fn as_nat(self) -> nat;

    /// The largest length representable in this type.
    spec fn spec_max() -> nat;

    /// Byte capacity of the inline string buffer paired with this length
    /// type: the size of a pointer plus the size of the length field, so the
    /// inline form never costs more than the heap-backed form.
    spec fn spec_inline_capacity() -> nat;

    /// Basic bounds every length type guarantees.
    proof fn lemma_valid_length_bounds()
        ensures
            Self::spec_max() <= usize::MAX,
            4 <= Self::spec_inline_capacity() <= Self::spec_max(),
            Self::spec_inline_capacity() <= u8::MAX,
    ;

    /// The additive identity.
    fn zero() -> (r: Self)
        ensures
            r.as_nat() == 0,
    ;

    /// The largest representable length, as a value.
    fn max_value() -> (r: Self)
        ensures
            r.as_nat() == Self::spec_max(),
    ;

    /// Fallible construction from a size: succeeds exactly when the size does
    /// not exceed the maximum.
    fn from_usize(n: usize) -> (r: Option<Self>)
        ensures
            r is Some <==> n as nat <= Self::spec_max(),
            r matches Some(v) ==> v.as_nat() == n as nat,
    ;

    /// Lossless construction from a small count, used for inline-buffer
    /// lengths, which never exceed `spec_inline_capacity()`.
    fn from_small(n: u8) -> (r: Self)
        requires
            n as nat <= Self::spec_max(),
        ensures
            r.as_nat() == n as nat,
    ;

    /// Lossless conversion to a size.
    fn to_usize(self) -> (r: usize)
        ensures
            r as nat == self.as_nat(),
    ;

    /// The inline string buffer capacity, as a value.
    fn inline_capacity() -> (r: usize)
        ensures
            r as nat == Self::spec_inline_capacity(),
    ;

    /// The name of this length type, as a character sequence.
    spec fn spec_target_name() -> Seq<char>;

    /// The name of this length type, carried by the error values.
    fn target_name() -> (r: &'static str)
        ensures
            r@ == Self::spec_target_name(),
    ;
}

impl ValidLength for u8 {
    open spec fn as_nat(self) -> nat {
        self as nat
    }

    open spec fn spec_max() -> nat {
        u8::MAX as nat
    }

    open spec fn spec_inline_capacity() -> nat {
        9
    }

    proof fn lemma_valid_length_bounds() {
    }

    fn zero() -> (r: Self) {
        0
    }

    fn max_value() -> (r: Self) {
        u8::MAX
    }

    fn from_usize(n: usize) -> (r: Option<Self>) {
        if n <= u8::MAX as usize {
            Some(n as u8)
        } else {
            None
        }
    }

    fn from_small(n: u8) -> (r: Self) {
        n
    }

    fn to_usize(self) -> (r: usize) {
        self as usize
    }

    fn inline_capacity() -> (r: usize) {
        9
    }

    open spec fn spec_target_name() -> Seq<char> {
        "u8"@
    }

    fn target_name() -> (r: &'static str) {
        "u8"
    }
}

impl ValidLength for u16 {
    open spec fn as_nat(self) -> nat {
        self as nat
    }

    open spec fn spec_max() -> nat {
        u16::MAX as nat
    }

    open spec fn spec_inline_capacity() -> nat {
        10
    }

    proof fn lemma_valid_length_bounds() {
    }

    fn zero() -> (r: Self) {
        0
    }

    fn max_value() -> (r: Self) {
        u16::MAX
    }

    fn from_usize(n: usize) -> (r: Option<Self>) {
        if n <= u16::MAX as usize {
            Some(n as u16)
        } else {
            None
        }
    }

    fn from_small(n: u8) -> (r: Self) {
        n as u16
    }

    fn to_usize(self) -> (r: usize) {
        self as usize
    }

    fn inline_capacity() -> (r: usize) {
        10
    }

    open spec fn spec_target_name() -> Seq<char> {
        "u16"@
    }

    fn target_name() -> (r: &'static str) {
        "u16"
    }
}

impl ValidLength for u32 {
    open spec fn as_nat(self) -> nat {
        self as nat
    }

    open spec fn spec_max() -> nat {
        u32::MAX as nat
    }

    open spec fn spec_inline_capacity() -> nat {
        12
    }

    proof fn lemma_valid_length_bounds() {
    }

    fn zero() -> (r: Self) {
        0
    }

    fn max_value() -> (r: Self) {
        u32::MAX
    }

    fn from_usize(n: usize) -> (r: Option<Self>) {
        if n <= u32::MAX as usize {
            Some(n as u32)
        } else {
            None
        }
    }

    fn from_small(n: u8) -> (r: Self) {
        n as u32
    }

    fn to_usize(self) -> (r: usize) {
        self as usize
    }

    fn inline_capacity() -> (r: usize) {
        12
    }

    open spec fn spec_target_name() -> Seq<char> {
        "u32"@
    }

    fn target_name() -> (r: &'static str) {
        "u32"
    }
}

/// The error of a fallible array conversion whose source length exceeds the
/// target length type's maximum. It carries the original input back to the
/// caller, so no data is lost.
#[derive(Debug)]
pub struct InvalidLength<T> {
    target_name: &'static str,
    original: Vec<T>,
}

impl<T> View for InvalidLength<T> {
    type V = Seq<T>;

    closed spec fn view(&self) -> Seq<T> {
        self.original@
    }
}

impl<T> InvalidLength<T> {
    /// The name of the length type that the input did not fit.
    pub closed spec fn spec_target_name(self) -> Seq<char> {
        self.target_name@
    }

    /// Wraps the rejected input together with the name of the length type it
    /// did not fit.
    pub(crate) fn new(target_name: &'static str, original: Vec<T>) -> (r: Self)
        ensures
            r@ == original@,
            r.spec_target_name() == target_name@,
    {
        Self { target_name, original }
    }

    /// The name of the length type that the input did not fit.
    pub fn target_name(&self) -> (r: &'static str)
        ensures
            r@ == self.spec_target_name(),
    {
        self.target_name
    }

    /// Returns the original vector that could not be converted.
    pub fn get_inner(self) -> (r: Vec<T>)
        ensures
            r@ == self@,
    {
        self.original
    }
}

/// The error of a fallible string conversion whose source length exceeds the
/// target length type's maximum. It carries the original string back to the
/// caller, so no data is lost.
#[derive(Debug)]
pub struct InvalidStrLength {
    target_name: &'static str,
    original: String,
}

impl View for InvalidStrLength {
    type V = Seq<char>;

    closed spec fn view(&self) -> Seq<char> {
        self.original@
    }
}

impl InvalidStrLength {
    /// The name of the length type that the input did not fit.
    pub closed spec fn spec_target_name(self) -> Seq<char> {
        self.target_name@
    }

    /// Wraps the rejected input together with the name of the length type it
    /// did not fit.
    pub(crate) fn new(target_name: &'static str, original: String) -> (r: Self)
        ensures
            r@ == original@,
            r.spec_target_name() == target_name@,
    {
        Self { target_name, original }
    }

    /// The name of the length type that the input did not fit.
    pub fn target_name(&self) -> (r: &'static str)
        ensures
            r@ == self.spec_target_name(),
    {
        self.target_name
    }

    /// Returns the original string that could not be converted.
    pub fn get_inner(self) -> (r: String)
        ensures
            r@ == self@,
    {
        self.original
    }
}

} // verus!
