//! Binary attribute values travel through JSON as standard base64 text.
use vstd::prelude::*;

verus! {

/// The bytes that a text stands for in padded standard-alphabet base64, if it is valid.
pub uninterp spec fn base64_decoded(s: Seq<char>) -> Option<Seq<u8>>;

/// The padded standard-alphabet base64 text of a byte sequence.
pub uninterp spec fn base64_text(b: Seq<u8>) -> Seq<char>;

/// Relies on base64's `Engine::decode` with the `STANDARD` engine: it returns the
/// decoded bytes for valid padded standard-alphabet input and an error otherwise; the
/// result depends on the text alone.
#[verifier::external_body]
fn base64_decode(s: &str) -> (r: Option<Vec<u8>>)
    ensures
        match r {
            Some(b) => base64_decoded(s@) == Some(b@),
            None => base64_decoded(s@) is None,
        },
{
    base64::Engine::decode(&base64::engine::general_purpose::STANDARD, s).ok()
}

/// Relies on base64's `Engine::encode` with the `STANDARD` engine: the padded
/// standard-alphabet text of the bytes, which the same engine decodes back to those
/// bytes. It panics only when the encoded length does not
/// fit in `usize`, which needs more than `isize::MAX` input bytes, more than a `Vec` holds.
#[verifier::external_body]
fn base64_encode(b: &Vec<u8>) -> (r: String)
    ensures
        r@ == base64_text(b@),
        base64_decoded(r@) == Some(b@),
{
    base64::Engine::encode(&base64::engine::general_purpose::STANDARD, b)
}

/// The bytes stored for a binary field: the decoded text, or no bytes at all when the
/// text is not valid base64 (a lenient fallback, so one bad field does not abort a
/// request).
pub open spec fn binary_of_text(s: Seq<char>) -> Seq<u8> {
    match base64_decoded(s) {
        Some(b) => b,
        None => Seq::empty(),
    }
}

/// Decodes base64 text; `None` marks text that is not valid base64.
pub fn decode_binary(s: &str) -> (r: Option<Vec<u8>>)
    ensures
        match r {
            Some(b) => base64_decoded(s@) == Some(b@),
            None => base64_decoded(s@) is None,
        },
{
    base64_decode(s)
}

/// The bytes for a binary field, with the empty fallback for undecodable text.
pub fn binary_from_text(s: &str) -> (r: Vec<u8>)
    ensures
        r@ == binary_of_text(s@),
{
    match base64_decode(s) {
        Some(b) => b,
        None => Vec::new(),
    }
}

/// Renders bytes as base64 text, which decodes back to the same bytes.
pub fn binary_to_text(b: &Vec<u8>) -> (r: String)
    ensures
        r@ == base64_text(b@),
        binary_of_text(r@) == b@,
{
    base64_encode(b)
}

} // verus!
