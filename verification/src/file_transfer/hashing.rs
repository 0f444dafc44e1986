//! Content digests with the standard library's default hasher.
use vstd::prelude::*;
use std::hash::{Hash, Hasher};
use crate::text::{hex_fixed, hex16, str_eq};
use crate::file_transfer::traits::HashVerifier;

verus! {

/// What `std::collections::hash_map::DefaultHasher::new()` yields after a
/// byte slice with these contents is hashed into it and the hasher finished.
pub uninterp spec fn default_slice_hash(data: Seq<u8>) -> u64;

/// Hash a byte slice with a fresh `DefaultHasher` (`<[u8] as Hash>::hash`,
/// then `Hasher::finish`). The result is named, not described: the SipHash
/// rounds are not restated here.
#[verifier::external_body]
pub(crate) fn hash_slice(data: &[u8]) -> (r: u64)
    ensures
        r == default_slice_hash(data@),
{
    let mut hasher = std::collections::hash_map::DefaultHasher::new();
    data.hash(&mut hasher);
    hasher.finish()
}

pub struct DefaultHashVerifier;

impl HashVerifier for DefaultHashVerifier {
    /// The hash as 16 lower-case hexadecimal digits.
    open spec fn digest(&self, data: Seq<u8>) -> Seq<char> {
        hex_fixed(default_slice_hash(data) as nat, 16)
    }

    fn verify(&self, data: &[u8], expected_hash: &str) -> (r: bool) {
        let actual = self.calculate_hash(data);
        str_eq(actual.as_str(), expected_hash)
    }

    fn calculate_hash(&self, data: &[u8]) -> (r: String) {
        hex16(hash_slice(data))
    }
}

}
