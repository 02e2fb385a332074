//! SHA-256 checksums, as computed by the `sha2` crate.

use sha2::Digest;
use vstd::prelude::*;

verus! {

/// The lower-case hexadecimal text of the SHA-256 digest of `data`.
pub uninterp spec fn sha256_lower_hex(data: Seq<u8>) -> Seq<char>;

/// `sha2::Sha256::digest` formatted with `{:x}`: the SHA-256 digest of the
/// bytes as lower-case hexadecimal, claimed to be what `sha256_lower_hex` names.
#[verifier::external_body]
pub(crate) fn sha256_hex(data: &[u8]) -> (r: String)
    ensures
        r@ == sha256_lower_hex(data@),
{
    format!("{:x}", ::sha2::Sha256::digest(data))
}

} // verus!
