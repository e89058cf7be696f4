//! Fingerprints: the MD5 digest of a text, in lower-case hexadecimal.

use vstd::prelude::*;
use vstd::utf8::encode_utf8;

verus! {

/// The MD5 digest of `data`, written as lower-case hexadecimal text.
///
/// The digest is computed by the `md5` crate and is not defined here; all
/// that this crate relies on is that equal data give equal digests.
pub uninterp spec fn md5_hex(data: Seq<u8>) -> Seq<char>;

/// The fingerprint of a text: the MD5 digest of its UTF-8 encoding.
pub open spec fn fingerprint_of(text: Seq<char>) -> Seq<char> {
    md5_hex(encode_utf8(text))
}

/// Calls `md5::compute` on `data` and formats the resulting `md5::Digest`
/// with its `LowerHex` implementation.
///
/// Trusted: the contract only names the outcome as `md5_hex(data@)`, that
/// is, it claims that the outcome depends on the bytes of `data` alone.
#[verifier::external_body]
fn hex_digest(data: &[u8]) -> (hex: String)
    ensures
        hex@ == md5_hex(data@),
{
    format!("{:x}", md5::compute(data))
}

/// Computes the fingerprint of `text`.
pub fn fingerprint(text: &str) -> (hex: String)
    ensures
        hex@ == fingerprint_of(text@),
{
    hex_digest(text.as_bytes())
}

} // verus!
