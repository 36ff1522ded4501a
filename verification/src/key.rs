//! The key deriver for the upgrade handshake.
//!
//! The protocol fixes the algorithm: append a 36-character magic GUID to the
//! client's `Sec-WebSocket-Key` token, hash the concatenation with SHA-1, and
//! encode the 20-byte digest in standard base64 with padding. The digest and
//! the base64 encoding come from outside crates; their results are named by
//! the uninterpreted functions [`sha1_of`] and [`base64_of`], so the accept
//! token of a key is pinned down as one exact composition.

use vstd::prelude::*;
use vstd::utf8::encode_utf8;

verus! {

/// The 20-byte SHA-1 digest of a byte sequence, as the `sha1` crate computes it.
pub uninterp spec fn sha1_of(data: Seq<u8>) -> Seq<u8>;

/// The standard padded base64 encoding of a byte sequence, as the `base64`
/// crate computes it.
pub uninterp spec fn base64_of(data: Seq<u8>) -> Seq<char>;

/// The magic GUID that the protocol appends to the client's key.
pub open spec fn handshake_magic() -> Seq<char> {
    "258EAFA5-E914-47DA-95CA-C5AB0DC85B11"@
}

/// The accept token owed for a client key: base64 of the SHA-1 digest of the
/// key's bytes followed by the magic GUID's bytes.
pub open spec fn accept_token_of(key: Seq<char>) -> Seq<char> {
    base64_of(sha1_of(encode_utf8(key) + encode_utf8(handshake_magic())))
}

/// Relies on the `sha1` crate (`Sha1::new` / `update` / `finalize`): the SHA-1
/// digest of the input, a function of the input bytes alone, always 20 bytes
/// (`OutputSize = U20`).
#[verifier::external_body]
fn sha1_digest(data: &Vec<u8>) -> (r: Vec<u8>)
    ensures
        r@ == sha1_of(data@),
        r@.len() == 20,
{
    let mut hasher = <sha1::Sha1 as sha1::Digest>::new();
    sha1::Digest::update(&mut hasher, data.as_slice());
    sha1::Digest::finalize(hasher).to_vec()
}

/// Relies on `base64::engine::general_purpose::STANDARD.encode`: the standard
/// alphabet with padding, a function of the input bytes alone. The length
/// bound keeps clear of the one panic in `encode` (overflow while sizing the
/// output buffer, which needs an input near the address-space limit).
#[verifier::external_body]
fn base64_encode(data: &Vec<u8>) -> (r: String)
    requires
        data@.len() <= 0x1000_0000,
    ensures
        r@ == base64_of(data@),
{
    base64::Engine::encode(&base64::engine::general_purpose::STANDARD, data.as_slice())
}

/// Turns a `Sec-WebSocket-Key` token into the `Sec-WebSocket-Accept` token.
pub fn convert_key(key: &str) -> (r: String)
    ensures
        r@ == accept_token_of(key@),
{
    let mut data: Vec<u8> = Vec::new();
    data.extend_from_slice(key.as_bytes());
    data.extend_from_slice("258EAFA5-E914-47DA-95CA-C5AB0DC85B11".as_bytes());
    proof {
        assert(data@ =~= encode_utf8(key@) + encode_utf8(handshake_magic()));
    }
    let digest = sha1_digest(&data);
    base64_encode(&digest)
}

} // verus!
