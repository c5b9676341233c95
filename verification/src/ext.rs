//! The library's trusted boundary: thin wrappers over outside-crate and
//! std functions that Verus cannot see into. Each wrapper's contract is
//! what the called function's source or documentation promises.

use vstd::prelude::*;
use base64::Engine;

verus! {

/// The standard (RFC 4648) base64 encoding of a byte sequence, with padding.
pub uninterp spec fn b64_of(bytes: Seq<u8>) -> Seq<char>;

/// Relies on base64's `STANDARD` engine: `encode` returns the canonical
/// padded base64 text of the input, and that encoding is injective.
#[verifier::external_body]
pub fn b64_encode(bytes: &Vec<u8>) -> (r: String)
    ensures
        r@ == b64_of(bytes@),
        r@ == b64_of(bytes@) && (forall|b: Seq<u8>| b64_of(b) == r@ ==> b == bytes@),
{
    base64::engine::general_purpose::STANDARD.encode(bytes)
}

/// Relies on base64's `STANDARD` engine: `decode` requires canonical padding
/// and rejects stray trailing bits, so it succeeds on every canonical
/// encoding and returns its unique preimage.
#[verifier::external_body]
pub fn b64_decode(s: &str) -> (r: Option<Vec<u8>>)
    ensures
        r matches Some(v) ==> s@ == b64_of(v@) && (forall|b: Seq<u8>| s@ == b64_of(b) ==> b == v@),
        r is None ==> (forall|b: Seq<u8>| s@ != b64_of(b)),
{
    base64::engine::general_purpose::STANDARD.decode(s).ok()
}

/// Relies on `uuid::Uuid::new_v4` and its `Display`: a fresh random UUID
/// rendered in the canonical hyphenated form, which is 36 ASCII characters.
/// The value is random, so nothing more is promised of it.
#[verifier::external_body]
pub fn new_correlation_id() -> (r: String)
    ensures
        r@.len() == 36,
{
    uuid::Uuid::new_v4().to_string()
}

/// Relies on `char::from_u32`: succeeds exactly on Unicode scalar
/// values, yielding the character with that code point.
#[verifier::external_body]
pub fn char_from_u32(v: u32) -> (r: Option<char>)
    ensures
        r matches Some(c) ==> c as u32 == v,
        r is Some <==> vstd::utf8::is_scalar(v),
{
    char::from_u32(v)
}

/// Relies on `String::from_utf8`: succeeds exactly on valid UTF-8 input and
/// returns the string whose byte encoding is that input.
#[verifier::external_body]
pub fn bytes_to_string(bytes: Vec<u8>) -> (r: Option<String>)
    ensures
        r matches Some(s) ==> vstd::utf8::encode_utf8(s@) == bytes@,
        vstd::utf8::valid_utf8(bytes@) ==> r is Some,
{
    String::from_utf8(bytes).ok()
}

/// Relies on `str::chars` and `Iterator::collect`: yields exactly the
/// string's characters, in order.
#[verifier::external_body]
pub fn str_to_chars(s: &str) -> (r: Vec<char>)
    ensures
        r@ == s@,
{
    s.chars().collect()
}

/// Relies on `FromIterator<char> for String`: builds the string holding
/// exactly the given characters, in order.
#[verifier::external_body]
pub fn chars_to_string(cs: &Vec<char>) -> (r: String)
    ensures
        r@ == cs@,
{
    cs.iter().collect()
}

} // verus!
