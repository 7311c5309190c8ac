//! Keyed hashing used to sign exchange requests. The digests themselves
//! come from the `hmac` and `sha2` crates; what they return is named here
//! and the signing logic built on top of it is verified.

use hmac::{Hmac, Mac};
use sha2::{Digest, Sha256, Sha512};
use vstd::prelude::*;

verus! {

/// The HMAC-SHA256 tag of `message` under `key`.
pub uninterp spec fn hmac_sha256_of(key: Seq<u8>, message: Seq<u8>) -> Seq<u8>;

/// The HMAC-SHA512 tag of `message` under `key`.
pub uninterp spec fn hmac_sha512_of(key: Seq<u8>, message: Seq<u8>) -> Seq<u8>;

/// The SHA-512 digest of `data`.
pub uninterp spec fn sha512_of(data: Seq<u8>) -> Seq<u8>;

/// HMAC-SHA256 through `hmac::Hmac::<sha2::Sha256>` (`new_from_slice`,
/// `update`, `finalize`). Claimed: the tag is `hmac_sha256_of(key, message)`
/// and is 32 bytes long, and keying never fails (the crate's
/// `HmacCore::new_from_slice` hashes or pads a key of any length and always
/// returns `Ok`).
#[verifier::external_body]
pub(crate) fn hmac_sha256(key: &[u8], message: &[u8]) -> (tag: Option<Vec<u8>>)
    ensures
        tag is Some,
        tag matches Some(t) ==> t@ == hmac_sha256_of(key@, message@) && t@.len() == 32,
{
    match Hmac::<Sha256>::new_from_slice(key) {
        Ok(mut mac) => {
            mac.update(message);
            Some(mac.finalize().into_bytes().to_vec())
        },
        Err(_) => None,
    }
}

/// HMAC-SHA512 through `hmac::Hmac::<sha2::Sha512>` (`new_from_slice`,
/// `update`, `finalize`). Claimed: the tag is `hmac_sha512_of(key, message)`
/// and is 64 bytes long, and keying never fails (as for SHA-256 above).
#[verifier::external_body]
pub(crate) fn hmac_sha512(key: &[u8], message: &[u8]) -> (tag: Option<Vec<u8>>)
    ensures
        tag is Some,
        tag matches Some(t) ==> t@ == hmac_sha512_of(key@, message@) && t@.len() == 64,
{
    match Hmac::<Sha512>::new_from_slice(key) {
        Ok(mut mac) => {
            mac.update(message);
            Some(mac.finalize().into_bytes().to_vec())
        },
        Err(_) => None,
    }
}

/// SHA-512 through `sha2::Sha512::digest`. Claimed: the result is
/// `sha512_of(data)` and is 64 bytes long.
#[verifier::external_body]
pub(crate) fn sha512(data: &[u8]) -> (digest: Vec<u8>)
    ensures
        digest@ == sha512_of(data@),
        digest@.len() == 64,
{
    Sha512::digest(data).to_vec()
}

} // verus!
