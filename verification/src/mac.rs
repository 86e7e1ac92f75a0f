//! Authentication tags.

use hmac::Mac;
use vstd::prelude::*;

verus! {

/// Number of bytes in an authentication tag.
pub const HMAC_TAG_SIZE: usize = 32;

/// The HMAC-SHA256 tag of `data` under `key`.
pub uninterp spec fn hmac_sha256(key: Seq<u8>, data: Seq<u8>) -> Seq<u8>;

/// Computes the tag with `hmac::Hmac<sha2::Sha256>`: `new_from_slice` on the
/// key, `update` with the data, `finalize`. The contract is not proved: it
/// claims that the result is the HMAC-SHA256 of the data under the key, a
/// function of these two alone, and that it is 32 bytes long, the output size
/// of SHA-256. The construction accepts a key of every length.
#[verifier::external_body]
pub(crate) fn compute_tag(key: &[u8], data: &[u8]) -> (tag: Vec<u8>)
    ensures
        tag@ == hmac_sha256(key@, data@),
        tag@.len() == HMAC_TAG_SIZE,
{
    let mut mac = hmac::Hmac::<sha2::Sha256>::new_from_slice(key).expect("any key length");
    mac.update(data);
    mac.finalize().into_bytes().to_vec()
}

} // verus!
