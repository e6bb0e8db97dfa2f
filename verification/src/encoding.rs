//! Bytes as text: UTF-8, and base64 with the standard alphabet and padding.
use base64::engine::general_purpose::STANDARD;
use base64::Engine;
use vstd::prelude::*;
use vstd::utf8::*;

verus! {

/// The base64 text of bytes.
pub uninterp spec fn base64_text(bytes: Seq<u8>) -> Seq<char>;

/// The bytes that a text stands for in base64, or what is wrong with the text.
pub uninterp spec fn base64_bytes(text: Seq<char>) -> Result<Seq<u8>, Seq<char>>;

/// `base64::Engine::encode` of the standard engine. Decoding what it gives gives the bytes back.
#[verifier::external_body]
pub(crate) fn base64_encode(bytes: &[u8]) -> (r: String)
    ensures
        r@ == base64_text(bytes@),
        base64_bytes(r@) is Ok,
        base64_bytes(r@)->Ok_0 == bytes@,
{
    STANDARD.encode(bytes)
}

/// `base64::Engine::decode` of the standard engine: the bytes, or the text of its error.
#[verifier::external_body]
pub(crate) fn base64_decode(text: &str) -> (r: Result<Vec<u8>, String>)
    ensures
        r is Ok == base64_bytes(text@) is Ok,
        r is Ok ==> r->Ok_0@ == base64_bytes(text@)->Ok_0,
        r is Err ==> r->Err_0@ == base64_bytes(text@)->Err_0,
{
    STANDARD.decode(text).map_err(|error| error.to_string())
}

/// `std::str::from_utf8`: the text that the bytes encode, and nothing where they are not UTF-8.
#[verifier::external_body]
pub(crate) fn utf8_text(bytes: &[u8]) -> (r: Option<String>)
    ensures
        r is Some == valid_utf8(bytes@),
        r is Some ==> r->0@ == decode_utf8(bytes@),
{
    std::str::from_utf8(bytes).ok().map(|text| text.to_string())
}

/// The text that bytes stand for, with U+FFFD where they are not UTF-8.
pub uninterp spec fn lossy_text(bytes: Seq<u8>) -> Seq<char>;

/// `String::from_utf8_lossy` gives the text that the bytes encode where they are UTF-8, and
/// otherwise a text that depends on the bytes alone.
#[verifier::external_body]
pub(crate) fn from_utf8_lossy(bytes: &[u8]) -> (r: String)
    ensures
        r@ == lossy_text(bytes@),
        valid_utf8(bytes@) ==> r@ == decode_utf8(bytes@),
{
    String::from_utf8_lossy(bytes).into_owned()
}

/// Encodes bytes and decodes the text again: the bytes come back.
pub fn base64_round_trip(bytes: &[u8]) -> (r: Option<Vec<u8>>)
    ensures
        r is Some,
        r->0@ == bytes@,
{
    let text: String = base64_encode(bytes);
    match base64_decode(text.as_str()) {
        Ok(decoded) => Some(decoded),
        Err(_) => None,
    }
}

} // verus!
