//! The two encodings that the handshake rests on.

use vstd::prelude::*;
use base64::engine::general_purpose::STANDARD;
use base64::Engine;
use sha1::{Digest, Sha1};

verus! {

/// How many bytes a SHA-1 digest has.
pub const DIGEST_LENGTH: usize = 20;

/// The longest input whose base64 text has a length that fits `usize`
/// whatever the machine.
pub const BASE64_INPUT_LIMIT: usize = 0x3000_0000;

/// The SHA-1 digest of a sequence of bytes.
pub uninterp spec fn sha1(data: Seq<u8>) -> Seq<u8>;

/// The base64 text of a sequence of bytes, in the standard alphabet and
/// padded.
pub uninterp spec fn base64_text(data: Seq<u8>) -> Seq<char>;

/// `Sha1::digest`: the SHA-1 digest of the bytes, which is 20 bytes long.
#[verifier::external_body]
pub(crate) fn sha1_digest(data: &[u8]) -> (digest: Vec<u8>)
    ensures
        digest@ == sha1(data@),
        digest@.len() == DIGEST_LENGTH,
{
    Sha1::digest(data).to_vec()
}

/// `Engine::encode` of the `STANDARD` engine: the padded base64 text of the
/// bytes, four characters for every three bytes or part of three.
#[verifier::external_body]
pub(crate) fn base64_encode(data: &[u8]) -> (text: String)
    requires
        data@.len() <= BASE64_INPUT_LIMIT,
    ensures
        text@ == base64_text(data@),
        text@.len() == 4 * ((data@.len() + 2) / 3),
{
    STANDARD.encode(data)
}

} // verus!
