//! Digests of byte strings.

use vstd::prelude::*;

verus! {

/// The hexadecimal BLAKE3 digest of bytes, as `blake3::hash` gives it.
pub uninterp spec fn blake3_digest(bytes: Seq<u8>) -> Seq<char>;

/// The hexadecimal SHA-256 digest of bytes, as `sha2::Sha256` gives it.
pub uninterp spec fn sha256_digest(bytes: Seq<u8>) -> Seq<char>;

/// Hashes bytes with `blake3::hash` and prints the digest with `Hash::to_hex`. The result depends on
/// the bytes alone.
#[verifier::external_body]
pub(crate) fn blake3_hex(bytes: &[u8]) -> (result: String)
    ensures
        result@ == blake3_digest(bytes@),
{
    blake3::hash(bytes).to_hex().to_string()
}

/// Hashes bytes with `sha2::Sha256` and prints the digest in lower-case hexadecimal digits. The
/// result depends on the bytes alone.
#[verifier::external_body]
pub(crate) fn sha256_hex(bytes: &[u8]) -> (result: String)
    ensures
        result@ == sha256_digest(bytes@),
{
    format!("{:x}", <sha2::Sha256 as sha2::Digest>::digest(bytes))
}

} // verus!
