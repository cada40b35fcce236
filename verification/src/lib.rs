//! Compact, immutable collection types: a fixed-size element array and a
//! fixed-size UTF-8 string.
//!
//! [`FixedArray`] and [`FixedString`] trade mutability and unbounded length
//! for a smaller footprint: the length is stored in a narrow unsigned integer
//! type chosen through [`ValidLength`], and short strings are kept inline in a
//! small byte buffer instead of a separate heap allocation. Conversions from
//! and back to the growable forms ([`Vec`] and [`String`]) either reject or
//! truncate inputs whose length exceeds the chosen length type's maximum.

mod array;
mod inline;
mod length;
mod non_empty_array;
mod static_str;
mod string;
mod truncating_into;

pub use array::truncate_vec;
pub use array::FixedArray;
pub use inline::find_term_index;
pub use inline::get_heap_threshold;
pub use inline::last_term_pos;
pub use inline::lemma_last_term_pos;
pub use inline::lemma_last_term_pos_absent;
pub use inline::lemma_last_term_pos_unique;
pub use inline::lemma_valid_utf8_no_terminator;
pub use inline::spec_inline_len;
pub use inline::InlineString;
pub use inline::INLINE_TERMINATOR;
pub use length::InvalidLength;
pub use length::InvalidStrLength;
pub use length::LengthSealed;
pub use length::ValidLength;
pub use static_str::StaticStr;
pub use string::largest_boundary_at_most;
pub use string::lemma_decode_utf8_empty;
pub use string::lemma_encode_utf8_injective;
pub use string::lemma_largest_boundary_at_most;
pub use string::lemma_largest_boundary_at_most_unique;
pub use string::truncate_str;
pub use string::truncate_string;
pub use string::FixedString;
pub use truncating_into::Sealed;
pub use truncating_into::TruncatingInto;
