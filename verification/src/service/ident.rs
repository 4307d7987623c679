//! Identifiers and digests.

use crate::text::{hex_string, hex_text};
use vstd::prelude::*;

verus! {

/// Whether a character is a digit of a lower-case hexadecimal number.
pub open spec fn lower_hex(c: char) -> bool {
    ('0' <= c && c <= '9') || ('a' <= c && c <= 'f')
}

/// Whether a text has the form of a random UUID: 32 lower-case hexadecimal digits in groups of 8,
/// 4, 4, 4 and 12, with hyphens between them, and the version digit 4.
pub open spec fn uuid_form(t: Seq<char>) -> bool {
    &&& t.len() == 36
    &&& t[8] == '-' && t[13] == '-' && t[18] == '-' && t[23] == '-'
    &&& t[14] == '4'
    &&& forall|i: int|
        0 <= i < 36 && i != 8 && i != 13 && i != 18 && i != 23 ==> lower_hex(#[trigger] t[i])
}

/// `uuid::Uuid::new_v4`, in its hyphenated form: 36 characters of that form, whichever number was
/// drawn.
#[verifier::external_body]
fn draw_uuid() -> (r: String)
    ensures
        uuid_form(r@),
{
    uuid::Uuid::new_v4().to_string()
}

/// A fresh identifier.
#[must_use]
pub fn new_id() -> (r: String)
    ensures
        uuid_form(r@),
{
    draw_uuid()
}

/// SHA-256 of a byte string, as sha2 computes it.
pub uninterp spec fn sha256_digest(data: Seq<u8>) -> Seq<u8>;

/// `sha2::Sha256::digest`: the 32 bytes of the digest of the data.
#[verifier::external_body]
fn digest(data: &[u8]) -> (r: Vec<u8>)
    ensures
        r@ == sha256_digest(data@),
        r@.len() == 32,
{
    <sha2::Sha256 as sha2::Digest>::digest(data).to_vec()
}

/// SHA-256 of a byte string, hex encoded.
#[must_use]
pub fn sha256_hex(data: &[u8]) -> (r: String)
    ensures
        r@ == hex_text(sha256_digest(data@)),
{
    let d = digest(data);
    hex_string(d.as_slice())
}

/// Text that a byte string stands for in UTF-8, with a replacement character for what is not.
pub uninterp spec fn utf8_lossy(data: Seq<u8>) -> Seq<char>;

/// [`String::from_utf8_lossy`]: the text of the bytes.
#[verifier::external_body]
fn decode_utf8_lossy(data: &[u8]) -> (r: String)
    ensures
        r@ == utf8_lossy(data@),
{
    String::from_utf8_lossy(data).into_owned()
}

/// Text of a byte string; what is not UTF-8 is replaced.
#[must_use]
pub fn text_of_utf8(data: &[u8]) -> (r: String)
    ensures
        r@ == utf8_lossy(data@),
{
    decode_utf8_lossy(data)
}

} // verus!
