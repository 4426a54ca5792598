//! The trusted boundary to the outside crates.
//!
//! Each function here wraps exactly the outside calls the pipeline's
//! logic needs; Verus believes the stated contracts without reading the
//! bodies.  Results that are functions of the arguments alone but have
//! no short statement (a digest, a base64 image) are given names by
//! bodiless spec functions, and the contracts speak of those names.

use vstd::prelude::*;
use base64::Engine;
use sha1::Digest;

verus! {

use vstd::utf8::valid_utf8;

/// The 20-byte SHA-1 digest of a byte sequence, as `sha1::Sha1` computes it.
pub uninterp spec fn sha1_of(bytes: Seq<u8>) -> Seq<u8>;

/// The standard base64 encoding (with padding) of a byte sequence, as
/// `base64`'s `STANDARD` engine produces it.
pub uninterp spec fn b64_of(bytes: Seq<u8>) -> Seq<u8>;

/// What `base64`'s `STANDARD` engine decodes a byte sequence to, or
/// `None` where it rejects the input.
pub uninterp spec fn b64_bytes_of(enc: Seq<u8>) -> Option<Seq<u8>>;

/// The host component that `url::Url::parse` finds in a source string,
/// as UTF-8 bytes, or `None` where parsing fails or no host is present.
pub uninterp spec fn url_host(source: Seq<char>) -> Option<Seq<u8>>;

/// Relies on `str::from_utf8` of std: it succeeds exactly on valid UTF-8,
/// which vstd's `valid_utf8` characterizes.
#[verifier::external_body]
pub(crate) fn utf8_valid(bytes: &Vec<u8>) -> (r: bool)
    ensures
        r == valid_utf8(bytes@),
{
    core::str::from_utf8(bytes.as_slice()).is_ok()
}

/// Relies on `sha1::Sha1` through the `Digest` trait: the digest is
/// 20 bytes and depends on the input bytes alone.
#[verifier::external_body]
pub(crate) fn sha1_digest(bytes: &Vec<u8>) -> (r: Vec<u8>)
    ensures
        r@ == sha1_of(bytes@),
        r@.len() == 20,
{
    sha1::Sha1::digest(bytes.as_slice()).to_vec()
}

/// Relies on `base64::engine::general_purpose::STANDARD`'s `encode`: the
/// output is a function of the input alone, and decoding it with the
/// same engine gives the input back.
#[verifier::external_body]
pub(crate) fn b64_encode(bytes: &Vec<u8>) -> (r: Vec<u8>)
    ensures
        r@ == b64_of(bytes@),
        b64_bytes_of(r@) == Some(bytes@),
{
    base64::engine::general_purpose::STANDARD.encode(bytes.as_slice()).into_bytes()
}

/// Relies on `base64::engine::general_purpose::STANDARD`'s `decode`.
#[verifier::external_body]
pub(crate) fn b64_decode(enc: &Vec<u8>) -> (r: Option<Vec<u8>>)
    ensures
        r is Some <==> b64_bytes_of(enc@) is Some,
        r matches Some(v) ==> Some(v@) == b64_bytes_of(enc@),
{
    base64::engine::general_purpose::STANDARD.decode(enc.as_slice()).ok()
}

/// Relies on `url::Url::parse` and `url::Url::host_str`: together they
/// are a function of the source string alone, yielding its host
/// component where the source parses as a URL with a host.
#[verifier::external_body]
pub(crate) fn source_host(source: &str) -> (r: Option<Vec<u8>>)
    ensures
        r is Some <==> url_host(source@) is Some,
        r matches Some(h) ==> Some(h@) == url_host(source@),
{
    match url::Url::parse(source) {
        Ok(parsed) => match parsed.host_str() {
            Some(host) => Some(host.as_bytes().to_vec()),
            None => None,
        },
        Err(_) => None,
    }
}

/// The string field under `key` of the JSON document `body`: `Some` of
/// the field's text exactly where `body` is a well-formed JSON object
/// holding a string there.  A function of the body text and key alone,
/// as `serde_json`'s default (ordered-map) parser computes it.
pub uninterp spec fn json_str_field(body: Seq<char>, key: Seq<char>) -> Option<Seq<char>>;

/// The list-of-strings field under `key` of the JSON document `body`:
/// `Some` of the texts exactly where `body` is a well-formed JSON
/// object holding an array of strings there.  A function of the body
/// text and key alone.
pub uninterp spec fn json_string_list_field(body: Seq<char>, key: Seq<char>) -> Option<Seq<Seq<char>>>;

/// Relies on `serde_json::from_str`, `Value::get` and `Value::as_str`:
/// together they are a function of the body text and the key alone,
/// yielding the string stored under the key where there is one.
#[verifier::external_body]
pub(crate) fn json_string_field(body: &str, key: &str) -> (r: Option<String>)
    ensures
        r is Some <==> json_str_field(body@, key@) is Some,
        r matches Some(s) ==> Some(s@) == json_str_field(body@, key@),
{
    match serde_json::from_str::<serde_json::Value>(body) {
        Ok(doc) => match doc.get(key) {
            Some(field) => match field.as_str() {
                Some(text) => Some(text.to_owned()),
                None => None,
            },
            None => None,
        },
        Err(_) => None,
    }
}

/// Relies on `serde_json::from_str`, `Value::get` and
/// `serde_json::from_value`: together they are a function of the body
/// text and the key alone, yielding the strings of the array stored
/// under the key where the field is exactly an array of strings.
#[verifier::external_body]
pub(crate) fn json_string_list(body: &str, key: &str) -> (r: Option<Vec<String>>)
    ensures
        r is Some <==> json_string_list_field(body@, key@) is Some,
        r matches Some(v) ==> Some(v.deep_view()) == json_string_list_field(body@, key@),
{
    match serde_json::from_str::<serde_json::Value>(body) {
        Ok(doc) => match doc.get(key) {
            Some(field) => serde_json::from_value::<Vec<String>>(field.clone()).ok(),
            None => None,
        },
        Err(_) => None,
    }
}

} // verus!
