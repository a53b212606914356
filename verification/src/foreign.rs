//! Calls into std and outside crates whose contracts are taken on trust.

use vstd::prelude::*;
use crate::text::{ascii_lower, ascii_upper, is_ascii_text};

verus! {

/// `String::push`: the string gains `c` at its end and nothing else changes.
#[verifier::external_body]
pub(crate) fn push_char(s: &mut String, c: char)
    ensures
        final(s)@ == old(s)@.push(c),
{
    s.push(c)
}

/// What `str::to_uppercase` gives for a text (the Unicode uppercase mapping).
pub uninterp spec fn upper_text(s: Seq<char>) -> Seq<char>;

/// What `str::to_lowercase` gives for a text (the Unicode lowercase mapping).
pub uninterp spec fn lower_text(s: Seq<char>) -> Seq<char>;

/// A text in upper case: for ASCII text, each letter `a`–`z` becomes `A`–`Z`;
/// otherwise the Unicode uppercase mapping.
pub open spec fn upper_case(s: Seq<char>) -> Seq<char> {
    if is_ascii_text(s) {
        s.map_values(|c: char| ascii_upper(c))
    } else {
        upper_text(s)
    }
}

/// A text in lower case: for ASCII text, each letter `A`–`Z` becomes `a`–`z`;
/// otherwise the Unicode lowercase mapping.
pub open spec fn lower_case(s: Seq<char>) -> Seq<char> {
    if is_ascii_text(s) {
        s.map_values(|c: char| ascii_lower(c))
    } else {
        lower_text(s)
    }
}

/// `str::to_uppercase`: the result is the uppercase mapping of `s`, a function of
/// `s` alone; on ASCII text it maps each letter `a`–`z` to `A`–`Z` and keeps every
/// other character, as the Unicode mapping does for ASCII.
#[verifier::external_body]
pub(crate) fn to_upper(s: &str) -> (r: String)
    ensures
        r@ == upper_text(s@),
        is_ascii_text(s@) ==> r@ == s@.map_values(|c: char| ascii_upper(c)),
{
    s.to_uppercase()
}

/// `str::to_lowercase`: the result is the lowercase mapping of `s`, a function of
/// `s` alone; on ASCII text it maps each letter `A`–`Z` to `a`–`z` and keeps every
/// other character, as the Unicode mapping does for ASCII.
#[verifier::external_body]
pub(crate) fn to_lower(s: &str) -> (r: String)
    ensures
        r@ == lower_text(s@),
        is_ascii_text(s@) ==> r@ == s@.map_values(|c: char| ascii_lower(c)),
{
    s.to_lowercase()
}

/// What `String::from_utf8_lossy` gives for a byte sequence: its UTF-8 decoding,
/// with each invalid sequence replaced by U+FFFD.
pub uninterp spec fn lossy_text(b: Seq<u8>) -> Seq<char>;

/// `String::from_utf8_lossy`: the result is a function of the bytes alone, and for
/// valid UTF-8 it is their plain decoding, as the documentation says. What it is for
/// invalid input (where the replacement characters go) is left unsaid.
#[verifier::external_body]
pub(crate) fn from_utf8_lossy(b: &[u8]) -> (r: String)
    ensures
        r@ == lossy_text(b@),
        vstd::utf8::valid_utf8(b@) ==> r@ == vstd::utf8::decode_utf8(b@),
{
    String::from_utf8_lossy(b).into_owned()
}

} // verus!
