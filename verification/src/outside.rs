//! The trusted boundary to the outside crates the logic leans on: base64
//! for encoding and decoding image payloads, uuid for fresh resource
//! identifiers, chrono for the current time. Each wrapper's contract is
//! what the called crate documents, and nothing more.

use vstd::prelude::*;

use base64::Engine;

verus! {

/// What base64 standard encoding returns for the given bytes.
pub uninterp spec fn b64_of(bytes: Seq<u8>) -> Seq<char>;

/// What base64 standard decoding returns for the given text: `None` where
/// the text is not valid base64.
pub uninterp spec fn b64_decoded(text: Seq<char>) -> Option<Seq<u8>>;

/// Relies on base64's standard engine `encode`: the encoding is a
/// function of the input bytes alone.
#[verifier::external_body]
pub fn base64_encode(bytes: &Vec<u8>) -> (r: String)
    ensures
        r@ == b64_of(bytes@),
{
    base64::engine::general_purpose::STANDARD.encode(bytes)
}

/// Relies on base64's standard engine `decode`: whether the text decodes,
/// and to which bytes, is a function of the text alone.
#[verifier::external_body]
pub fn base64_decode(text: &str) -> (r: Option<Vec<u8>>)
    ensures
        match r {
            Some(b) => b64_decoded(text@) == Some(b@),
            None => b64_decoded(text@) is None,
        },
{
    match base64::engine::general_purpose::STANDARD.decode(text.as_bytes()) {
        Ok(b) => Some(b),
        Err(_) => None,
    }
}

/// Relies on `uuid::Uuid::new_v4` and its `Display` rendering: a fresh
/// random identifier in hyphenated form, which is 36 characters long.
#[verifier::external_body]
pub fn new_uuid_string() -> (r: String)
    ensures
        r@.len() == 36,
{
    uuid::Uuid::new_v4().to_string()
}

/// Relies on `chrono::Utc::now`: the current wall-clock time in
/// milliseconds since the Unix epoch. Nothing is assumed of the value.
#[verifier::external_body]
pub fn now_millis() -> (t: i64) {
    chrono::Utc::now().timestamp_millis()
}

} // verus!
