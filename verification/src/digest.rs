//! The MD5 digest of a text, rendered as lowercase hexadecimal.
use vstd::prelude::*;
use crate::hexcode::{hex_encode_bytes, spec_hex_encode};
use vstd::utf8::encode_utf8;

verus! {

/// What `md5::compute` returns for a byte sequence: the sixteen bytes of
/// the MD5 digest, a function of the input alone.
pub uninterp spec fn md5_of(bytes: Seq<u8>) -> Seq<u8>;

/// Relies on `md5::compute`: the digest depends on the input bytes alone
/// and is sixteen bytes long.
#[verifier::external_body]
fn md5_digest(bytes: &[u8]) -> (r: Vec<u8>)
    ensures
        r@ == md5_of(bytes@),
        r@.len() == 16,
{
    md5::compute(bytes).0.to_vec()
}

/// Computes the MD5 hash of a string and returns the digest as 32 lowercase
/// hexadecimal characters.
pub fn compute_md5(input: String) -> (r: String)
    ensures
        r@ == spec_hex_encode(md5_of(encode_utf8(input@))),
        r@.len() == 32,
{
    let d = md5_digest(input.as_str().as_bytes());
    hex_encode_bytes(d.as_slice())
}

} // verus!
