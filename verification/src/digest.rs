//! Content digests.
use sha2::{Digest, Sha256};
use vstd::prelude::*;

verus! {

/// The SHA-256 digest of `data`, written as lower-case hexadecimal digits.
pub uninterp spec fn sha256_hex(data: Seq<u8>) -> Seq<char>;

/// Calls `sha2::Sha256` (`new`, `update`, `finalize`) on `data` and formats
/// the digest with `{:x}`. Trusted: the result is the digest of exactly these
/// bytes, which depends on nothing else.
#[verifier::external_body]
pub(crate) fn sha256(data: &[u8]) -> (hex: String)
    ensures
        hex@ == sha256_hex(data@),
{
    let mut hasher = Sha256::new();
    hasher.update(data);
    format!("{:x}", hasher.finalize())
}

} // verus!
