//! The keyed digest behind signature verification.

use vstd::prelude::*;

verus! {

/// The HMAC-SHA-256 digest of a message under a key, both given as text.
/// The digest is a fixed function of the two texts alone; its value is
/// not stated here.
pub uninterp spec fn hmac_sha256_of(key: Seq<char>, msg: Seq<char>) -> Seq<u8>;

/// Relies on hmac::Hmac<sha2::Sha256>: new_from_slice accepts keys of any
/// length, update feeds the message, and verify_slice compares the
/// expected tag against the computed digest in constant time, failing on
/// any length or content difference. The digest depends on the key and
/// message bytes alone.
#[verifier::external_body]
pub(crate) fn hmac_sha256_check(key: &str, msg: &str, tag: &[u8]) -> (r: bool)
    ensures
        r == (tag@ == hmac_sha256_of(key@, msg@)),
{
    let mut mac = <hmac::Hmac<sha2::Sha256> as hmac::KeyInit>::new_from_slice(key.as_bytes())
        .expect("HMAC accepts keys of any length");
    hmac::Mac::update(&mut mac, msg.as_bytes());
    hmac::Mac::verify_slice(mac, tag).is_ok()
}

} // verus!
