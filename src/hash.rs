//! The content hash of a tiered storage file.
use vstd::prelude::*;
use crate::meta::AccountHash;

verus! {

/// The BLAKE3 digest of `data`.
pub uninterp spec fn blake3_of(data: Seq<u8>) -> Seq<u8>;

/// Relies on blake3::hash: the 32-byte BLAKE3 digest of the input, which
/// depends on the input bytes alone.
#[verifier::external_body]
pub(crate) fn blake3_digest(data: &[u8]) -> (r: AccountHash)
    ensures
        r.bytes@ == blake3_of(data@),
{
    AccountHash { bytes: *blake3::hash(data).as_bytes() }
}

} // verus!
