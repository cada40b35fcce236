//! The public fixed-size string and its tagged representation, which picks
//! among heap-backed, inline and static storage, together with the UTF-8
//! boundary-respecting truncation that the infallible constructors apply.

use vstd::prelude::*;
use vstd::string::StringSliceAdditionalSpecFns;
use vstd::utf8::*;

use crate::array::FixedArray;
use crate::inline::InlineString;
use crate::length::{InvalidStrLength, ValidLength};
use crate::static_str::StaticStr;

verus! {

broadcast use vstd::utf8::encode_utf8_valid_utf8;

/// Relies on `str::from_utf8`: on valid UTF-8 input it returns `Ok` of the
/// string slice viewing exactly those bytes (and only errs on invalid input,
/// which the precondition rules out).
#[verifier::external_body]
pub(crate) fn bytes_to_str(v: &[u8]) -> (r: &str)
    requires
        valid_utf8(v@),
    ensures
        r.spec_bytes() == v@,
{
    core::str::from_utf8(v).unwrap()
}

/// Relies on `String::from_utf8`: on valid UTF-8 input it returns `Ok` of the
/// string owning exactly those bytes (and only errs on invalid input, which
/// the precondition rules out).
#[verifier::external_body]
pub(crate) fn string_from_utf8(v: Vec<u8>) -> (r: String)
    requires
        valid_utf8(v@),
    ensures
        encode_utf8(r@) == v@,
{
    String::from_utf8(v).unwrap()
}

/// Relies on `String::into_bytes`: it returns the string's underlying UTF-8
/// bytes.
#[verifier::external_body]
pub(crate) fn string_into_bytes(s: String) -> (r: Vec<u8>)
    ensures
        r@ == encode_utf8(s@),
{
    s.into_bytes()
}

/// Relies on `String::from(Box<str>)`: the result is the string over exactly
/// the boxed data.
#[verifier::external_body]
fn boxed_str_into_string(b: Box<str>) -> (r: String)
    ensures
        r@ == b@,
{
    String::from(b)
}

/// Relies on `String::into_boxed_str`: the result holds exactly the string's
/// data.
#[verifier::external_body]
fn string_into_boxed_str(s: String) -> (r: Box<str>)
    ensures
        r@ == s@,
{
    s.into_boxed_str()
}

/// Relies on `String::from(char)`: the result is the string of that one
/// character.
#[verifier::external_body]
pub(crate) fn char_to_string(c: char) -> (r: String)
    ensures
        r@ == seq![c],
{
    String::from(c)
}

/// Byte-for-byte comparison of two slices.
fn bytes_eq(a: &[u8], b: &[u8]) -> (r: bool)
    ensures
        r == (a@ == b@),
{
    if a.len() != b.len() {
        return false;
    }
    let mut i: usize = 0;
    while i < a.len()
        invariant
            a@.len() == b@.len(),
            0 <= i <= a@.len(),
            forall|j: int| 0 <= j < i ==> a@[j] == b@[j],
        decreases a@.len() - i,
    {
        if *vstd::slice::slice_index_get(a, i) != *vstd::slice::slice_index_get(b, i) {
            return false;
        }
        i = i + 1;
    }
    proof {
        assert(a@ =~= b@);
    }
    true
}

/// UTF-8 encoding is injective: equal encodings come from equal strings.
pub proof fn lemma_encode_utf8_injective(a: Seq<char>, b: Seq<char>)
    requires
        encode_utf8(a) == encode_utf8(b),
    ensures
        a == b,
{
    encode_utf8_decode_utf8(a);
    encode_utf8_decode_utf8(b);
}

/// A valid UTF-8 byte sequence is empty exactly when it decodes to no
/// characters.
pub proof fn lemma_decode_utf8_empty(bytes: Seq<u8>)
    requires
        valid_utf8(bytes),
    ensures
        decode_utf8(bytes).len() == 0 <==> bytes.len() == 0,
{
    if bytes.len() != 0 {
        assert(decode_utf8(bytes).len() >= 1);
    }
}

/// The length of the largest prefix of `bytes` that is at most `max_len`
/// bytes long and ends at a character boundary. Length 0 is always a
/// boundary, so the value is always defined.
pub open spec fn largest_boundary_at_most(bytes: Seq<u8>, max_len: int) -> int
    recommends
        valid_utf8(bytes),
        0 <= max_len,
    decreases max_len,
{
    if max_len <= 0 {
        0
    } else if max_len <= bytes.len() && is_char_boundary(bytes, max_len) {
        max_len
    } else {
        largest_boundary_at_most(bytes, max_len - 1)
    }
}

/// The truncation boundary law: `largest_boundary_at_most` lies on a
/// character boundary (so no code point is ever split), never exceeds
/// `max_len`, is the largest such position, and leaves an already-fitting
/// sequence whole.
pub proof fn lemma_largest_boundary_at_most(bytes: Seq<u8>, max_len: int)
    requires
        valid_utf8(bytes),
        0 <= max_len,
    ensures
        0 <= largest_boundary_at_most(bytes, max_len) <= max_len,
        largest_boundary_at_most(bytes, max_len) <= bytes.len(),
        is_char_boundary(bytes, largest_boundary_at_most(bytes, max_len)),
        forall|j: int|
            largest_boundary_at_most(bytes, max_len) < j <= max_len && j <= bytes.len()
                ==> !is_char_boundary(bytes, j),
        bytes.len() <= max_len ==> largest_boundary_at_most(bytes, max_len) == bytes.len(),
    decreases max_len,
{
    broadcast use vstd::utf8::is_char_boundary_start_end_of_seq;

    if max_len <= 0 {
    } else if max_len <= bytes.len() && is_char_boundary(bytes, max_len) {
    } else {
        lemma_largest_boundary_at_most(bytes, max_len - 1);
    }
}

/// A position on a character boundary with no boundary between it and
/// `max_len` is exactly the largest boundary at most `max_len`.
pub proof fn lemma_largest_boundary_at_most_unique(bytes: Seq<u8>, max_len: int, k: int)
    requires
        valid_utf8(bytes),
        0 <= k <= max_len,
        k <= bytes.len(),
        is_char_boundary(bytes, k),
        forall|j: int| k < j <= max_len && j <= bytes.len() ==> !is_char_boundary(bytes, j),
    ensures
        largest_boundary_at_most(bytes, max_len) == k,
    decreases max_len,
{
    if max_len <= 0 {
    } else if max_len <= bytes.len() && is_char_boundary(bytes, max_len) {
        assert(max_len == k);
    } else {
        lemma_largest_boundary_at_most_unique(bytes, max_len - 1, k);
    }
}

/// The largest prefix of `string` that is at most `max_len` bytes long and
/// ends at a character boundary: truncation never splits a multi-byte code
/// point, and an input that already fits comes back whole.
pub fn truncate_str<'a>(string: &'a str, max_len: usize) -> (r: &'a str)
    ensures
        r.spec_bytes() == string.spec_bytes().take(
            largest_boundary_at_most(string.spec_bytes(), max_len as int),
        ),
        string.spec_bytes().len() <= max_len ==> r@ == string@,
{
    let ghost bytes = string.spec_bytes();
    proof {
        broadcast use vstd::utf8::is_char_boundary_start_end_of_seq;

    }
    let mut len: usize = max_len;
    while !string.is_char_boundary(len)
        invariant
            bytes == string.spec_bytes(),
            0 <= len <= max_len,
            valid_utf8(bytes),
            is_char_boundary(bytes, 0),
            forall|j: int| len < j <= max_len ==> !is_char_boundary(bytes, j),
        decreases len,
    {
        len = len - 1;
    }
    proof {
        assert(len <= bytes.len());
        lemma_largest_boundary_at_most_unique(bytes, max_len as int, len as int);
    }
    let (prefix, _) = string.split_at(len);
    proof {
        assert(prefix.spec_bytes() =~= bytes.take(len as int));
        if bytes.len() <= max_len {
            lemma_largest_boundary_at_most(bytes, max_len as int);
            assert(prefix.spec_bytes() =~= bytes);
            lemma_encode_utf8_injective(prefix@, string@);
        }
    }
    prefix
}

/// Shortens the rejected input carried by an [`InvalidStrLength`] error to
/// the largest prefix of at most `max_len` bytes that ends at a character
/// boundary.
pub fn truncate_string(err: InvalidStrLength, max_len: usize) -> (r: String)
    ensures
        encode_utf8(r@) == encode_utf8(err@).take(
            largest_boundary_at_most(encode_utf8(err@), max_len as int),
        ),
{
    let value = err.get_inner();
    let truncated = truncate_str(value.as_str(), max_len);
    truncated.to_owned()
}

/// The tagged representation behind [`FixedString`]: borrowed static data,
/// a heap-backed byte array, or the inline buffer. Exactly one variant is
/// active, chosen at construction and never changed in place.
#[derive(Debug)]
pub(crate) enum FixedStringRepr<LenT: ValidLength> {
    Static(StaticStr<LenT>),
    Heap(FixedArray<u8, LenT>),
    Inline(InlineString<LenT>),
}

/// A fixed-size UTF-8 string whose byte length is stored in a
/// [`ValidLength`] type.
///
/// The logical byte sequence is always valid UTF-8, whichever representation
/// is active. Lengths are byte counts, never code-point counts.
#[derive(Debug)]
pub struct FixedString<LenT: ValidLength = u32> {
    repr: FixedStringRepr<LenT>,
}

impl<LenT: ValidLength> View for FixedString<LenT> {
    type V = Seq<char>;

    closed spec fn view(&self) -> Seq<char> {
        decode_utf8(self.spec_content())
    }
}

impl<LenT: ValidLength> FixedString<LenT> {
    /// The UTF-8 bytes of the string.
    pub closed spec fn spec_content(self) -> Seq<u8> {
        match self.repr {
            FixedStringRepr::Static(s) => s.spec_content(),
            FixedStringRepr::Heap(a) => a@,
            FixedStringRepr::Inline(i) => i.spec_content(),
        }
    }

    /// The bytes are always valid UTF-8 and their number fits the length
    /// type.
    #[verifier::type_invariant]
    closed spec fn wf(self) -> bool {
        &&& valid_utf8(self.spec_content())
        &&& self.spec_content().len() <= LenT::spec_max()
    }

    /// True of a string in the inline representation.
    pub closed spec fn spec_is_inline(self) -> bool {
        self.repr matches FixedStringRepr::Inline(_)
    }

    /// True of a string in the borrowed static representation.
    pub closed spec fn spec_is_static(self) -> bool {
        self.repr matches FixedStringRepr::Static(_)
    }

    /// True of a string in the heap-backed representation.
    pub closed spec fn spec_is_heap(self) -> bool {
        self.repr matches FixedStringRepr::Heap(_)
    }

    /// The new, empty string; no allocation.
    pub fn new() -> (r: Self)
        ensures
            r@ == Seq::<char>::empty(),
            r.spec_content() == Seq::<u8>::empty(),
    {
        proof {
            reveal_strlit("");
        }
        let r = Self::from_static_trunc("");
        proof {
            assert(""@ =~= Seq::<char>::empty());
            assert(encode_utf8(""@) =~= Seq::<u8>::empty());
            lemma_largest_boundary_at_most(encode_utf8(""@), LenT::spec_max() as int);
            assert(r.spec_content() =~= Seq::<u8>::empty());
        }
        r
    }

    /// Wraps `val` in the inline representation when its bytes fit the
    /// inline capacity.
    pub(crate) fn new_inline(val: &str) -> (r: Option<Self>)
        ensures
            r is Some <==> val.spec_bytes().len() <= LenT::spec_inline_capacity(),
            r matches Some(f) ==> {
                &&& f.spec_content() == val.spec_bytes()
                &&& f@ == val@
                &&& f.spec_is_inline()
            },
    {
        match InlineString::from_str(val) {
            Some(inline) => {
                proof {
                    LenT::lemma_valid_length_bounds();
                }
                let f = FixedString { repr: FixedStringRepr::Inline(inline) };
                proof {
                    encode_utf8_decode_utf8(val@);
                }
                Some(f)
            },
            None => None,
        }
    }

    /// Converts a `&'static str` into a [`FixedString`] without allocating
    /// or copying, truncating at a character boundary when the string is
    /// longer than the length type's maximum.
    pub fn from_static_trunc(val: &'static str) -> (r: Self)
        ensures
            r.spec_content() == val.spec_bytes().take(
                largest_boundary_at_most(val.spec_bytes(), LenT::spec_max() as int),
            ),
            val.spec_bytes().len() <= LenT::spec_max() ==> r@ == val@,
            r.spec_is_static(),
    {
        proof {
            LenT::lemma_valid_length_bounds();
            lemma_largest_boundary_at_most(val.spec_bytes(), LenT::spec_max() as int);
        }
        let truncated = truncate_str(val, LenT::max_value().to_usize());
        let r = FixedString {
            repr: FixedStringRepr::Static(StaticStr::from_static_str(truncated)),
        };
        proof {
            if val.spec_bytes().len() <= LenT::spec_max() {
                encode_utf8_decode_utf8(val@);
            }
        }
        r
    }

    /// Converts a string into a [`FixedString`]. Succeeds exactly when the
    /// byte length does not exceed the length type's maximum; otherwise the
    /// string comes back unchanged inside the error. Short strings take the
    /// inline representation; all others go to the heap.
    pub fn try_from_string(str: String) -> (r: Result<Self, InvalidStrLength>)
        ensures
            r is Ok <==> encode_utf8(str@).len() <= LenT::spec_max(),
            r matches Ok(f) ==> {
                &&& f@ == str@
                &&& f.spec_content() == encode_utf8(str@)
                &&& (f.spec_is_inline() <==> encode_utf8(str@).len()
                    <= LenT::spec_inline_capacity())
                &&& (f.spec_is_inline() || f.spec_is_heap())
            },
            r matches Err(e) ==> e@ == str@ && e.spec_target_name() == LenT::spec_target_name(),
    {
        proof {
            LenT::lemma_valid_length_bounds();
        }
        if let Some(inline) = Self::new_inline(str.as_str()) {
            return Ok(inline);
        }
        let bytes = string_into_bytes(str);
        match FixedArray::try_from_vec(bytes) {
            Ok(arr) => {
                let f = FixedString { repr: FixedStringRepr::Heap(arr) };
                proof {
                    encode_utf8_decode_utf8(str@);
                }
                Ok(f)
            },
            Err(err) => {
                let original = string_from_utf8(err.get_inner());
                proof {
                    lemma_encode_utf8_injective(original@, str@);
                }
                Err(InvalidStrLength::new(LenT::target_name(), original))
            },
        }
    }

    /// Converts a boxed string into a [`FixedString`], as
    /// [`FixedString::try_from_string`] does for a growable string.
    pub fn try_from_boxed_str(str: Box<str>) -> (r: Result<Self, InvalidStrLength>)
        ensures
            r is Ok <==> encode_utf8(str@).len() <= LenT::spec_max(),
            r matches Ok(f) ==> f@ == str@ && f.spec_content() == encode_utf8(str@),
            r matches Err(e) ==> e@ == str@ && e.spec_target_name() == LenT::spec_target_name(),
    {
        Self::try_from_string(boxed_str_into_string(str))
    }

    /// Converts a string into a [`FixedString`], truncating at a character
    /// boundary when its byte length exceeds the length type's maximum. This
    /// is a deliberately lossy, infallible policy: an input that already fits
    /// comes back unchanged; use [`FixedString::try_from_string`] to reject
    /// instead.
    pub fn from_string_trunc(str: String) -> (r: Self)
        ensures
            r.spec_content() == encode_utf8(str@).take(
                largest_boundary_at_most(encode_utf8(str@), LenT::spec_max() as int),
            ),
            encode_utf8(str@).len() <= LenT::spec_max() ==> r@ == str@,
            r.spec_is_inline() <==> r.spec_content().len() <= LenT::spec_inline_capacity(),
            !r.spec_is_static(),
    {
        let ghost bytes = encode_utf8(str@);
        proof {
            lemma_largest_boundary_at_most(bytes, LenT::spec_max() as int);
        }
        match Self::try_from_string(str) {
            Ok(val) => val,
            Err(err) => {
                let shortened = truncate_string(err, LenT::max_value().to_usize());
                match Self::try_from_string(shortened) {
                    Ok(val) => val,
                    Err(_) => {
                        proof {
                            assert(false);
                        }
                        vstd::pervasive::unreached()
                    },
                }
            },
        }
    }

    /// The byte length, in the stored length type.
    pub fn len(&self) -> (r: LenT)
        ensures
            r.as_nat() == self.spec_content().len(),
    {
        proof {
            use_type_invariant(self);
            LenT::lemma_valid_length_bounds();
        }
        match &self.repr {
            FixedStringRepr::Heap(a) => a.len(),
            FixedStringRepr::Static(s) => s.len(),
            FixedStringRepr::Inline(i) => LenT::from_small(i.len()),
        }
    }

    /// True exactly when the string holds no bytes (equivalently, no
    /// characters).
    pub fn is_empty(&self) -> (r: bool)
        ensures
            r == (self.spec_content().len() == 0),
            r == (self@.len() == 0),
    {
        proof {
            use_type_invariant(self);
            lemma_decode_utf8_empty(self.spec_content());
        }
        self.len().to_usize() == 0
    }

    /// The `str` view of the string, whichever representation is active.
    pub fn as_str(&self) -> (r: &str)
        ensures
            r@ == self@,
            r.spec_bytes() == self.spec_content(),
    {
        proof {
            use_type_invariant(self);
        }
        let r = match &self.repr {
            FixedStringRepr::Heap(a) => bytes_to_str(a.as_slice()),
            FixedStringRepr::Static(s) => s.as_str(),
            FixedStringRepr::Inline(i) => i.as_str(),
        };
        proof {
            decode_utf8_encode_utf8(self.spec_content());
            encode_utf8_decode_utf8(r@);
        }
        r
    }

    /// Converts the string back to a [`String`]; the heap representation
    /// hands its buffer over without copying.
    pub fn into_string(self) -> (r: String)
        ensures
            r@ == self@,
    {
        proof {
            use_type_invariant(&self);
            decode_utf8_encode_utf8(self.spec_content());
        }
        let ghost content = self.spec_content();
        match self.repr {
            FixedStringRepr::Heap(a) => {
                let r = string_from_utf8(a.into_vec());
                proof {
                    lemma_encode_utf8_injective(r@, decode_utf8(content));
                }
                r
            },
            FixedStringRepr::Static(s) => {
                let r = s.as_str().to_owned();
                proof {
                    encode_utf8_decode_utf8(r@);
                }
                r
            },
            FixedStringRepr::Inline(i) => {
                let r = i.as_str().to_owned();
                proof {
                    encode_utf8_decode_utf8(r@);
                }
                r
            },
        }
    }

    /// Converts the string back to a boxed string.
    pub fn into_boxed_str(self) -> (r: Box<str>)
        ensures
            r@ == self@,
    {
        string_into_boxed_str(self.into_string())
    }

    /// The borrowed static string when that representation is active: the
    /// zero-copy path back to a `&'static str`.
    pub fn as_static_str(&self) -> (r: Option<&'static str>)
        ensures
            r is Some <==> self.spec_is_static(),
            r matches Some(s) ==> s@ == self@ && s.spec_bytes() == self.spec_content(),
    {
        proof {
            use_type_invariant(self);
        }
        match &self.repr {
            FixedStringRepr::Static(s) => {
                let r = s.as_str();
                proof {
                    decode_utf8_encode_utf8(self.spec_content());
                    encode_utf8_decode_utf8(r@);
                }
                Some(r)
            },
            _ => None,
        }
    }

    /// True of the inline representation.
    pub fn is_inline(&self) -> (r: bool)
        ensures
            r == self.spec_is_inline(),
    {
        match &self.repr {
            FixedStringRepr::Inline(_) => true,
            _ => false,
        }
    }

    /// True of the borrowed static representation.
    pub fn is_static(&self) -> (r: bool)
        ensures
            r == self.spec_is_static(),
    {
        match &self.repr {
            FixedStringRepr::Static(_) => true,
            _ => false,
        }
    }

    /// Converts a character into a one-character [`FixedString`]; every
    /// character fits the inline buffer, whose capacity is at least four
    /// bytes.
    pub fn from_char(val: char) -> (r: Self)
        ensures
            r@ == seq![val],
            r.spec_is_inline(),
    {
        let s = char_to_string(val);
        proof {
            LenT::lemma_valid_length_bounds();
            char_is_scalar(val);
            assert(encode_utf8(seq![val]) =~= encode_scalar(val as u32) + encode_utf8(
                Seq::<char>::empty(),
            )) by {
                assert(seq![val].drop_first() =~= Seq::<char>::empty());
            }
            assert(encode_utf8(Seq::<char>::empty()) =~= Seq::<u8>::empty());
            assert(encode_scalar(val as u32).len() <= 4);
        }
        match Self::new_inline(s.as_str()) {
            Some(v) => v,
            None => {
                proof {
                    assert(false);
                }
                vstd::pervasive::unreached()
            },
        }
    }
}

impl<LenT: ValidLength> Default for FixedString<LenT> {
    /// The empty string, as [`FixedString::new`] returns it.
    fn default() -> (r: Self)
        ensures
            r@ == Seq::<char>::empty(),
    {
        Self::new()
    }
}

impl<LenT: ValidLength> Clone for FixedString<LenT> {
    /// The static and inline representations are copied by value; the heap
    /// representation allocates a fresh buffer of the same bytes.
    fn clone(&self) -> (r: Self)
        ensures
            r@ == self@,
            r.spec_content() == self.spec_content(),
            r.spec_is_inline() == self.spec_is_inline(),
            r.spec_is_static() == self.spec_is_static(),
            r.spec_is_heap() == self.spec_is_heap(),
    {
        proof {
            use_type_invariant(self);
        }
        match &self.repr {
            FixedStringRepr::Heap(a) => {
                let cloned_array = a.clone();
                proof {
                    assert forall|i: int| 0 <= i < a@.len() implies cloned_array@[i] == a@[i] by {
                        assert(vstd::pervasive::cloned::<u8>(a@[i], cloned_array@[i]));
                    }
                    assert(cloned_array@ =~= a@);
                }
                FixedString { repr: FixedStringRepr::Heap(cloned_array) }
            },
            FixedStringRepr::Inline(i) => FixedString {
                repr: FixedStringRepr::Inline(i.clone()),
            },
            FixedStringRepr::Static(s) => FixedString { repr: FixedStringRepr::Static(*s) },
        }
    }
}

impl<LenT: ValidLength> PartialEq for FixedString<LenT> {
    /// Equality is equality of the string content, whichever representations
    /// are active.
    fn eq(&self, other: &Self) -> (r: bool) {
        proof {
            use_type_invariant(self);
            use_type_invariant(other);
            decode_utf8_encode_utf8(self.spec_content());
            decode_utf8_encode_utf8(other.spec_content());
        }
        bytes_eq(self.as_str().as_bytes(), other.as_str().as_bytes())
    }
}

impl<LenT: ValidLength> vstd::std_specs::cmp::PartialEqSpecImpl for FixedString<LenT> {
    open spec fn obeys_eq_spec() -> bool {
        true
    }

    open spec fn eq_spec(&self, other: &Self) -> bool {
        self@ == other@
    }
}

impl<LenT: ValidLength> Eq for FixedString<LenT> {

}

impl<LenT: ValidLength> PartialEq<String> for FixedString<LenT> {
    /// Equality with a growable string is equality of the content.
    fn eq(&self, other: &String) -> (r: bool) {
        proof {
            use_type_invariant(self);
            decode_utf8_encode_utf8(self.spec_content());
            encode_utf8_decode_utf8(other@);
        }
        bytes_eq(self.as_str().as_bytes(), other.as_str().as_bytes())
    }
}

impl<LenT: ValidLength> vstd::std_specs::cmp::PartialEqSpecImpl<String> for FixedString<LenT> {
    open spec fn obeys_eq_spec() -> bool {
        true
    }

    open spec fn eq_spec(&self, other: &String) -> bool {
        self@ == other@
    }
}

impl<LenT: ValidLength> PartialEq<&str> for FixedString<LenT> {
    /// Equality with a string slice is equality of the content.
    fn eq(&self, other: &&str) -> (r: bool) {
        proof {
            use_type_invariant(self);
            decode_utf8_encode_utf8(self.spec_content());
            encode_utf8_decode_utf8(other@);
        }
        bytes_eq(self.as_str().as_bytes(), other.as_bytes())
    }
}

impl<LenT: ValidLength> vstd::std_specs::cmp::PartialEqSpecImpl<&str> for FixedString<LenT> {
    open spec fn obeys_eq_spec() -> bool {
        true
    }

    open spec fn eq_spec(&self, other: &&str) -> bool {
        self@ == other@
    }
}

} // verus!
