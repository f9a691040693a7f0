//! The two building blocks of a payload, a 32-bit tag and a text, written
//! and read by `bincode` in its fixed-width little-endian configuration.
//!
//! The four functions at the end of this file call `bincode`; their
//! contracts are taken on trust from its source and are not proved here.

use crate::endian::{le_bytes_4, le_bytes_8, le_value_4, le_value_8, lemma_le_8_bytes_of_value, lemma_le_8_value_of_bytes};
use vstd::prelude::*;
use vstd::utf8::*;

verus! {

/// A text on the wire: the length of its UTF-8 form as eight little-endian
/// bytes, then the UTF-8 form itself.
pub open spec fn text_bytes(text: Seq<char>) -> Seq<u8> {
    le_bytes_8(encode_utf8(text).len() as int) + encode_utf8(text)
}

/// Whether the UTF-8 form of `text` is short enough for its length to be
/// written in eight bytes. Every `String` is.
pub open spec fn text_fits(text: Seq<char>) -> bool {
    encode_utf8(text).len() <= u64::MAX
}

/// The number of bytes that the text at the start of `b` occupies, length
/// field included, or `None` where `b` does not start with a text: where
/// the length field is incomplete, announces more bytes than follow, or is
/// followed by bytes that are not UTF-8.
pub open spec fn text_extent(b: Seq<u8>) -> Option<int> {
    if b.len() >= 8 && le_value_8(b) <= b.len() - 8 && valid_utf8(
        b.subrange(8, 8 + le_value_8(b)),
    ) {
        Some(8 + le_value_8(b))
    } else {
        None
    }
}

/// The text at the start of `b`, meaningful where `text_extent(b)` is `Some`.
pub open spec fn leading_text(b: Seq<u8>) -> Seq<char>
    recommends
        text_extent(b) is Some,
{
    decode_utf8(b.subrange(8, 8 + le_value_8(b)))
}

/// A written text, whatever follows it, is read back as itself and over
/// exactly the bytes it was written to.
pub proof fn lemma_text_read_back(text: Seq<char>, rest: Seq<u8>)
    requires
        text_fits(text),
    ensures
        text_extent(text_bytes(text) + rest) == Some(text_bytes(text).len() as int),
        leading_text(text_bytes(text) + rest) == text,
        (text_bytes(text) + rest).skip(text_bytes(text).len() as int) == rest,
{
    let utf8 = encode_utf8(text);
    let b = text_bytes(text) + rest;
    lemma_le_8_value_of_bytes(utf8.len() as int);
    assert(le_value_8(b) == le_value_8(le_bytes_8(utf8.len() as int)));
    assert(b.subrange(8, 8 + utf8.len() as int) =~= utf8);
    encode_utf8_valid_utf8(text);
    encode_utf8_decode_utf8(text);
    assert(b.skip(text_bytes(text).len() as int) =~= rest);
}

/// Bytes that start with a text start with the written form of that text.
pub proof fn lemma_text_written_back(b: Seq<u8>)
    requires
        text_extent(b) is Some,
    ensures
        text_fits(leading_text(b)),
        text_extent(b)->0 <= b.len(),
        text_bytes(leading_text(b)) == b.subrange(0, text_extent(b)->0),
        encode_utf8(leading_text(b)).len() == le_value_8(b),
{
    let n = le_value_8(b);
    let utf8 = b.subrange(8, 8 + n);
    decode_utf8_encode_utf8(utf8);
    lemma_le_8_bytes_of_value(b.subrange(0, 8));
    assert(le_value_8(b.subrange(0, 8)) == n);
    assert(text_bytes(leading_text(b)) =~= b.subrange(0, 8 + n));
}

#[verifier::external_type_specification]
#[verifier::external_body]
pub struct ExBincodeErrorKind(bincode::ErrorKind);

/// Calls `bincode::serialize` on a `u32`. Trusted: the call succeeds and
/// returns the four bytes of `value`, least significant first.
#[verifier::external_body]
pub(crate) fn serialize_u32(value: u32) -> (r: Result<Vec<u8>, Box<bincode::ErrorKind>>)
    ensures
        r is Ok,
        r matches Ok(bytes) ==> bytes@ == le_bytes_4(value as int),
{
    bincode::serialize(&value)
}

/// Calls `bincode::serialize` on a `str`. Trusted: the call succeeds and
/// returns the byte length of `text` as eight little-endian bytes, followed
/// by the UTF-8 bytes of `text`.
#[verifier::external_body]
pub(crate) fn serialize_str(text: &str) -> (r: Result<Vec<u8>, Box<bincode::ErrorKind>>)
    ensures
        r is Ok,
        r matches Ok(bytes) ==> bytes@ == text_bytes(text@),
{
    bincode::serialize(text)
}

/// Calls `bincode::deserialize` for a `u32`. Trusted: the call succeeds
/// exactly when `bytes` holds at least four bytes, and then returns the
/// number that the first four spell, least significant first; bytes after
/// them are ignored.
#[verifier::external_body]
pub(crate) fn deserialize_u32(bytes: &[u8]) -> (r: Result<u32, Box<bincode::ErrorKind>>)
    ensures
        r is Ok <==> bytes@.len() >= 4,
        r matches Ok(value) ==> value == le_value_4(bytes@),
{
    bincode::deserialize::<u32>(bytes)
}

/// Calls `bincode::deserialize` for a `String`. Trusted: the call succeeds
/// exactly when `bytes` starts with an eight-byte little-endian length that
/// is followed by at least that many bytes, and those bytes are UTF-8; it
/// then returns them as a `String`, and bytes after them are ignored.
#[verifier::external_body]
pub(crate) fn deserialize_string(bytes: &[u8]) -> (r: Result<String, Box<bincode::ErrorKind>>)
    ensures
        r is Ok <==> text_extent(bytes@) is Some,
        r matches Ok(text) ==> text@ == leading_text(bytes@),
{
    bincode::deserialize::<String>(bytes)
}

} // verus!
