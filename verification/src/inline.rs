//! The inline small-string buffer: a fixed-capacity byte buffer holding short
//! UTF-8 content with no separate heap allocation for the content itself.
//!
//! The logical length is recovered from an in-band terminator byte written
//! just past the content. The terminator value can never occur inside valid
//! UTF-8 content, so its last occurrence unambiguously marks the end of the
//! content; a buffer with no terminator is fully used.

use core::marker::PhantomData;

use vstd::prelude::*;
use vstd::slice::slice_subrange;
use vstd::string::StringSliceAdditionalSpecFns;
use vstd::utf8::*;

use crate::length::ValidLength;

verus! {

broadcast use vstd::utf8::encode_utf8_valid_utf8;

/// The in-band terminator byte. It is not a valid UTF-8 leading or
/// continuation byte, so it can never occur inside the content.
pub const INLINE_TERMINATOR: u8 = 0xFF;

/// The byte capacity of the inline string buffer for the length type `LenT`:
/// strings strictly longer than this go to the heap.
pub fn get_heap_threshold<LenT: ValidLength>() -> (r: usize)
    ensures
        r as nat == LenT::spec_inline_capacity(),
{
    LenT::inline_capacity()
}

/// Position of the last occurrence of `term` in `s`, or `-1` when `term`
/// does not occur.
pub open spec fn last_term_pos(s: Seq<u8>, term: u8) -> int
    decreases s.len(),
{
    if s.len() == 0 {
        -1
    } else if s[s.len() - 1] == term {
        s.len() - 1
    } else {
        last_term_pos(s.drop_last(), term)
    }
}

/// The logical content length of an inline buffer: the position of the last
/// terminator byte, or the whole buffer when no terminator is present.
pub open spec fn spec_inline_len(arr: Seq<u8>) -> int {
    if last_term_pos(arr, INLINE_TERMINATOR) >= 0 {
        last_term_pos(arr, INLINE_TERMINATOR)
    } else {
        arr.len() as int
    }
}

/// The last terminator position is a position of `term`, and nothing after
/// it is `term`; when it is `-1`, `term` does not occur at all.
pub proof fn lemma_last_term_pos(s: Seq<u8>, term: u8)
    ensures
        -1 <= last_term_pos(s, term) < s.len(),
        last_term_pos(s, term) >= 0 ==> s[last_term_pos(s, term)] == term,
        forall|i: int| last_term_pos(s, term) < i < s.len() ==> s[i] != term,
    decreases s.len(),
{
    if s.len() != 0 && s[s.len() - 1] != term {
        lemma_last_term_pos(s.drop_last(), term);
        assert forall|i: int| last_term_pos(s, term) < i < s.len() implies s[i] != term by {
            if i < s.len() - 1 {
                assert(s.drop_last()[i] == s[i]);
            }
        }
    }
}

/// In a sequence whose one occurrence of `term` is at `k`, the last
/// occurrence is `k`; in a sequence without `term`, there is none.
pub proof fn lemma_last_term_pos_unique(s: Seq<u8>, term: u8, k: int)
    requires
        0 <= k < s.len(),
        s[k] == term,
        forall|i: int| k < i < s.len() ==> s[i] != term,
    ensures
        last_term_pos(s, term) == k,
    decreases s.len(),
{
    if k == s.len() - 1 {
    } else {
        assert(s[s.len() - 1] != term);
        assert(s.drop_last()[k] == s[k]);
        assert forall|i: int| k < i < s.drop_last().len() implies s.drop_last()[i] != term by {
            assert(s.drop_last()[i] == s[i]);
        }
        lemma_last_term_pos_unique(s.drop_last(), term, k);
    }
}

/// A sequence in which `term` never occurs has no last occurrence.
pub proof fn lemma_last_term_pos_absent(s: Seq<u8>, term: u8)
    requires
        forall|i: int| 0 <= i < s.len() ==> s[i] != term,
    ensures
        last_term_pos(s, term) == -1,
    decreases s.len(),
{
    if s.len() != 0 {
        assert forall|i: int| 0 <= i < s.drop_last().len() implies s.drop_last()[i] != term by {
            assert(s.drop_last()[i] == s[i]);
        }
        lemma_last_term_pos_absent(s.drop_last(), term);
    }
}

/// Valid UTF-8 content never contains the terminator byte: every byte of a
/// valid encoding is a leading byte (at most `0xf7`) or a continuation byte
/// (at most `0xbf`).
pub proof fn lemma_valid_utf8_no_terminator(s: Seq<u8>)
    requires
        valid_utf8(s),
    ensures
        forall|i: int| 0 <= i < s.len() ==> s[i] != INLINE_TERMINATOR,
    decreases s.len(),
{
    if s.len() != 0 {
        let rest = pop_first_scalar(s);
        lemma_valid_utf8_no_terminator(rest);
        let k = length_of_first_scalar(s);
        assert forall|i: int| 0 <= i < s.len() implies s[i] != INLINE_TERMINATOR by {
            if i >= k {
                assert(rest[i - k] == s[i]);
            }
        }
    }
}

/// The position of the last occurrence of `term` in `haystack`, or
/// `fallback` when `term` does not occur.
///
/// A linear scan keeping the latest match; a vectorized scan would be an
/// optimization with the same meaning.
pub fn find_term_index(haystack: &[u8], term: u8, fallback: usize) -> (r: usize)
    ensures
        last_term_pos(haystack@, term) >= 0 ==> r == last_term_pos(haystack@, term),
        last_term_pos(haystack@, term) < 0 ==> r == fallback,
{
    let mut term_position = fallback;
    let len = haystack.len();
    let mut pos: usize = 0;
    while pos < len
        invariant
            len == haystack@.len(),
            0 <= pos <= len,
            last_term_pos(haystack@.take(pos as int), term) >= 0 ==> term_position
                == last_term_pos(haystack@.take(pos as int), term),
            last_term_pos(haystack@.take(pos as int), term) < 0 ==> term_position == fallback,
        decreases len - pos,
    {
        let byte = *vstd::slice::slice_index_get(haystack, pos);
        proof {
            assert(haystack@.take(pos + 1).drop_last() =~= haystack@.take(pos as int));
            assert(haystack@.take(pos + 1)[pos as int] == haystack@[pos as int]);
        }
        if byte == term {
            term_position = pos;
        }
        pos = pos + 1;
    }
    proof {
        assert(haystack@.take(len as int) =~= haystack@);
    }
    term_position
}

/// A fixed-capacity inline buffer of UTF-8 content whose capacity is tied to
/// the length type `LenT`.
#[derive(Debug)]
pub struct InlineString<LenT: ValidLength> {
    arr: Vec<u8>,
    len_type: PhantomData<LenT>,
}

impl<LenT: ValidLength> InlineString<LenT> {
    /// The buffer always has exactly the inline capacity, and the bytes up to
    /// the (implicit) content length are valid UTF-8.
    #[verifier::type_invariant]
    closed spec fn wf(self) -> bool {
        &&& self.arr@.len() == LenT::spec_inline_capacity()
        &&& 0 <= spec_inline_len(self.arr@) <= self.arr@.len()
        &&& valid_utf8(self.arr@.take(spec_inline_len(self.arr@)))
    }

    /// The content bytes of this buffer.
    pub closed spec fn spec_content(self) -> Seq<u8> {
        self.arr@.take(spec_inline_len(self.arr@))
    }

    /// Copies the bytes of `val` into a fresh inline buffer, writing the
    /// terminator just past them when they do not fill the buffer. Succeeds
    /// exactly when the bytes fit the inline capacity.
    pub fn from_str(val: &str) -> (r: Option<Self>)
        ensures
            r is Some <==> val.spec_bytes().len() <= LenT::spec_inline_capacity(),
            r matches Some(s) ==> s.spec_content() == val.spec_bytes(),
    {
        let bytes = val.as_bytes();
        Self::from_bytes(bytes)
    }

    /// Copies the UTF-8 encoding of one character into a fresh inline
    /// buffer; an encoding is at most four bytes, so this always succeeds
    /// when the inline capacity is at least four.
    pub fn from_char(val: char) -> (r: Option<Self>)
        ensures
            r is Some <==> encode_utf8(seq![val]).len() <= LenT::spec_inline_capacity(),
            r matches Some(s) ==> s.spec_content() == encode_utf8(seq![val]),
    {
        let s = crate::string::char_to_string(val);
        Self::from_str(s.as_str())
    }

    /// Copies valid UTF-8 bytes into a fresh inline buffer; see
    /// [`InlineString::from_str`].
    pub(crate) fn from_bytes(bytes: &[u8]) -> (r: Option<Self>)
        requires
            valid_utf8(bytes@),
        ensures
            r is Some <==> bytes@.len() <= LenT::spec_inline_capacity(),
            r matches Some(s) ==> s.spec_content() == bytes@,
    {
        let len = bytes.len();
        let cap = LenT::inline_capacity();
        if len > cap {
            return None;
        }
        let mut arr: Vec<u8> = Vec::new();
        let mut i: usize = 0;
        while i < len
            invariant
                0 <= i <= len,
                len == bytes@.len(),
                arr@ =~= bytes@.take(i as int),
            decreases len - i,
        {
            arr.push(*vstd::slice::slice_index_get(bytes, i));
            proof {
                assert(arr@ =~= bytes@.take(i + 1));
            }
            i = i + 1;
        }
        if len != cap {
            arr.push(INLINE_TERMINATOR);
        }
        while arr.len() < cap
            invariant
                cap as nat == LenT::spec_inline_capacity(),
                arr@.len() <= cap,
                bytes@.len() <= arr@.len(),
                arr@.take(bytes@.len() as int) =~= bytes@,
                bytes@.len() < cap ==> arr@.len() > bytes@.len() && arr@[bytes@.len() as int]
                    == INLINE_TERMINATOR,
                forall|j: int| bytes@.len() < j < arr@.len() ==> arr@[j] == 0,
            decreases cap - arr@.len(),
        {
            arr.push(0);
        }
        proof {
            lemma_valid_utf8_no_terminator(bytes@);
            if bytes@.len() < arr@.len() {
                assert forall|i2: int| (bytes@.len() as int) < i2 < arr@.len() implies arr@[i2]
                    != INLINE_TERMINATOR by {}
                assert forall|i2: int| 0 <= i2 < bytes@.len() implies arr@[i2]
                    != INLINE_TERMINATOR by {
                    assert(arr@.take(bytes@.len() as int)[i2] == arr@[i2]);
                }
                lemma_last_term_pos_unique(arr@, INLINE_TERMINATOR, bytes@.len() as int);
            } else {
                assert forall|i2: int| 0 <= i2 < arr@.len() implies arr@[i2]
                    != INLINE_TERMINATOR by {
                    assert(arr@.take(bytes@.len() as int)[i2] == arr@[i2]);
                }
                lemma_last_term_pos_absent(arr@, INLINE_TERMINATOR);
            }
            assert(spec_inline_len(arr@) == bytes@.len());
        }
        let r = InlineString { arr, len_type: PhantomData };
        proof {
            assert(r.spec_content() =~= bytes@);
        }
        Some(r)
    }

    /// The content length in bytes, recovered by scanning for the terminator.
    pub fn len(&self) -> (r: u8)
        ensures
            r as nat == self.spec_content().len(),
            r as nat <= LenT::spec_inline_capacity(),
    {
        proof {
            use_type_invariant(self);
            LenT::lemma_valid_length_bounds();
            lemma_last_term_pos(self.arr@, INLINE_TERMINATOR);
        }
        let idx = find_term_index(self.arr.as_slice(), INLINE_TERMINATOR, self.arr.len());
        idx as u8
    }

    /// The UTF-8 view of the content.
    pub fn as_str(&self) -> (r: &str)
        ensures
            r.spec_bytes() == self.spec_content(),
    {
        proof {
            use_type_invariant(self);
        }
        let len = self.len();
        let bytes = slice_subrange(self.arr.as_slice(), 0, len as usize);
        crate::string::bytes_to_str(bytes)
    }
}

impl<LenT: ValidLength> Clone for InlineString<LenT> {
    /// Copies the whole buffer; the content cannot change.
    fn clone(&self) -> (r: Self)
        ensures
            r.spec_content() == self.spec_content(),
    {
        proof {
            use_type_invariant(self);
        }
        let arr = self.arr.clone();
        proof {
            assert forall|i: int| 0 <= i < arr@.len() implies arr@[i] == self.arr@[i] by {
                assert(vstd::pervasive::cloned::<u8>(self.arr@[i], arr@[i]));
            }
            assert(arr@ =~= self.arr@);
        }
        InlineString { arr, len_type: PhantomData }
    }
}

} // verus!
