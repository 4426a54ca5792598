//! Content hashing and transport encoding of one file.
//!
//! The digest is always computed over the raw bytes, never over the
//! transport payload, so integrity checking is independent of the
//! encoding chosen.  Raw bytes that form valid UTF-8 travel unchanged;
//! anything else travels base64-encoded.

use vstd::prelude::*;
use crate::hex::{hex_bytes, lemma_hex_bytes_len, to_hex};
use crate::trusted::{b64_bytes_of, b64_decode, b64_encode, b64_of, sha1_digest, sha1_of,
    utf8_valid};

verus! {

use vstd::utf8::valid_utf8;

/// One entry of the deployment manifest: a file's path relative to the
/// deployment root, its content digest, its raw size, and the bytes
/// actually sent over the wire.
#[derive(Debug)]
pub struct FileDescriptor {
    /// POSIX-style path relative to the deployment root, as UTF-8 bytes.
    pub relative_path: Vec<u8>,
    /// Lowercase hex SHA-1 digest of the raw content (40 bytes).
    pub content_digest: Vec<u8>,
    /// Length of the raw content, before any transport encoding.
    pub size_bytes: usize,
    /// Raw bytes for text content, base64 bytes for binary content.
    pub transport_payload: Vec<u8>,
    /// Whether the raw content decodes as valid UTF-8 text.
    pub is_text: bool,
}

/// The hex digest the pipeline assigns to raw content.
pub open spec fn digest_of(raw: Seq<u8>) -> Seq<u8> {
    hex_bytes(sha1_of(raw))
}

/// The transport payload the pipeline assigns to raw content.
pub open spec fn payload_of(raw: Seq<u8>) -> Seq<u8> {
    if valid_utf8(raw) {
        raw
    } else {
        b64_of(raw)
    }
}

/// That a descriptor's payload carries the raw bytes recoverably: the
/// raw bytes themselves for text, an encoding that decodes back to them
/// for binary.
pub open spec fn payload_decodes(d: FileDescriptor, raw: Seq<u8>) -> bool {
    if valid_utf8(raw) {
        d.transport_payload@ == raw
    } else {
        b64_bytes_of(d.transport_payload@) == Some(raw)
    }
}

/// What it means for a descriptor to describe a file at `path` with raw
/// content `raw`.
pub open spec fn descriptor_for(d: FileDescriptor, path: Seq<u8>, raw: Seq<u8>) -> bool {
    &&& d.relative_path@ == path
    &&& d.content_digest@ == digest_of(raw)
    &&& d.size_bytes == raw.len()
    &&& d.is_text == valid_utf8(raw)
    &&& d.transport_payload@ == payload_of(raw)
}

/// Hashes one file's raw bytes and chooses its transport encoding.
///
/// The digest is the lowercase hex SHA-1 of the raw bytes, the size is
/// the raw byte count, and the payload is the raw bytes themselves when
/// they are valid UTF-8, else their base64 encoding — which decodes
/// back to the raw bytes exactly.
pub fn hash_content(path: Vec<u8>, raw: Vec<u8>) -> (d: FileDescriptor)
    ensures
        descriptor_for(d, path@, raw@),
        payload_decodes(d, raw@),
        d.content_digest@.len() == 40,
{
    let digest_raw = sha1_digest(&raw);
    let content_digest = to_hex(&digest_raw);
    proof {
        lemma_hex_bytes_len(digest_raw@);
    }
    let size_bytes = raw.len();
    let is_text = utf8_valid(&raw);
    if is_text {
        FileDescriptor { relative_path: path, content_digest, size_bytes, transport_payload: raw,
            is_text }
    } else {
        let transport_payload = b64_encode(&raw);
        FileDescriptor { relative_path: path, content_digest, size_bytes, transport_payload,
            is_text }
    }
}

/// Recovers the raw bytes from a descriptor's transport payload: the
/// payload itself for text, its base64 decoding for binary.
pub fn decode_payload(d: &FileDescriptor) -> (r: Option<Vec<u8>>)
    ensures
        d.is_text ==> (r matches Some(v) && v@ == d.transport_payload@),
        !d.is_text ==> (r is Some <==> b64_bytes_of(d.transport_payload@) is Some),
        !d.is_text ==> (r matches Some(v) ==> Some(v@) == b64_bytes_of(d.transport_payload@)),
{
    if d.is_text {
        Some(crate::bytes::copy_bytes(&d.transport_payload))
    } else {
        b64_decode(&d.transport_payload)
    }
}

/// Law: hashing is deterministic and encoding-independent — two
/// descriptors built from the same raw bytes carry the same digest and
/// the same payload, whatever their paths.
pub proof fn lemma_hasher_deterministic(
    d1: FileDescriptor,
    d2: FileDescriptor,
    p1: Seq<u8>,
    p2: Seq<u8>,
    raw: Seq<u8>,
)
    requires
        descriptor_for(d1, p1, raw),
        descriptor_for(d2, p2, raw),
    ensures
        d1.content_digest@ == d2.content_digest@,
        d1.transport_payload@ == d2.transport_payload@,
        d1.size_bytes == d2.size_bytes,
{
}

/// Law: for text content the transport payload is the raw content
/// itself, byte for byte.
pub proof fn lemma_text_payload_is_raw(d: FileDescriptor, path: Seq<u8>, raw: Seq<u8>)
    requires
        descriptor_for(d, path, raw),
        valid_utf8(raw),
    ensures
        d.transport_payload@ == raw,
{
}

} // verus!
