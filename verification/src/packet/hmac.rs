//! Packet authentication tags: HMAC-SHA256 truncated to the policy's tag size.
use vstd::prelude::*;
use crate::types::{spec_tag_size, HmacPolicy};
use crate::values::{HmacTag, ValidationError};

verus! {

/// HMAC-SHA256 of `message` under `key`.
pub uninterp spec fn hmac_sha256(key: Seq<u8>, message: Seq<u8>) -> Seq<u8>;

/// Messages an HMAC-SHA256 tag is computed for stay below this many bytes:
/// with the 64-byte key block before it, the bit length of what is hashed
/// must fit 64 bits.
pub open spec fn max_hmac_message() -> nat {
    0x1FFF_FFFF_FFFF_FFC0
}

/// Calls `ring::hmac::sign` with a key made by `ring::hmac::Key::new` for
/// `HMAC_SHA256`: the tag depends on key and message alone and is the 32-byte
/// SHA-256 output. `Key::new` hashes a key longer than a block and `sign`
/// hashes the key block and the message; each panics when the bit length of
/// what it hashes does not fit 64 bits, which the precondition leaves out.
#[verifier::external_body]
fn hmac_sha256_of(key: &[u8], message: &[u8]) -> (r: Vec<u8>)
    requires
        key@.len() < max_hmac_message(),
        message@.len() < max_hmac_message(),
    ensures
        r@ == hmac_sha256(key@, message@),
        r@.len() == 32,
{
    let k = ring::hmac::Key::new(ring::hmac::HMAC_SHA256, key);
    ring::hmac::sign(&k, message).as_ref().to_vec()
}

/// Calls `ring::constant_time::verify_slices_are_equal` (deprecated in ring,
/// which no longer promises anything of its timing): it succeeds exactly when
/// the two slices hold the same bytes.
#[verifier::external_body]
#[allow(deprecated)]
fn slices_equal(a: &[u8], b: &[u8]) -> (r: bool)
    ensures
        r == (a@ == b@),
{
    ring::constant_time::verify_slices_are_equal(a, b).is_ok()
}

/// The tag of `message` under `key` with `policy`: the first bytes of its
/// HMAC-SHA256, as many as the policy's tag size.
pub open spec fn packet_tag(key: Seq<u8>, message: Seq<u8>, policy: HmacPolicy) -> Seq<u8> {
    hmac_sha256(key, message).subrange(0, spec_tag_size(policy) as int)
}

/// Computes and checks packet tags.
#[derive(Clone, Copy, Debug)]
pub struct HmacCalculator;

impl HmacCalculator {
    pub fn new() -> (r: HmacCalculator) {
        HmacCalculator
    }

    /// The tag of `data` under `session_key` with `policy`.
    pub fn calculate_packet_hmac(&self, data: &[u8], session_key: &[u8], policy: HmacPolicy) -> (r: HmacTag)
        requires
            session_key@.len() < max_hmac_message(),
            data@.len() < max_hmac_message(),
        ensures
            r.data@ == packet_tag(session_key@, data@, policy),
            r.data@.len() == spec_tag_size(policy),
            r.policy == policy,
    {
        let full = hmac_sha256_of(session_key, data);
        let n = policy.tag_size();
        let tag = crate::codec::read_bytes(full.as_slice(), 0, n);
        HmacTag { data: tag, policy }
    }

    /// Accepts `tag` exactly when it is the tag of `data` under `session_key`
    /// with `policy`; the bytes are compared by ring's slice comparison, which
    /// makes no promise about its timing.
    pub fn verify_packet_hmac(&self, data: &[u8], session_key: &[u8], tag: &HmacTag, policy: HmacPolicy) -> (r: Result<(), ValidationError>)
        requires
            session_key@.len() < max_hmac_message(),
            data@.len() < max_hmac_message(),
        ensures
            r is Ok <==> tag.data@ == packet_tag(session_key@, data@, policy),
            r is Err ==> r == Err::<(), ValidationError>(ValidationError::InvalidHmacTag),
    {
        let expected = self.calculate_packet_hmac(data, session_key, policy);
        if slices_equal(expected.data.as_slice(), tag.data.as_slice()) {
            Ok(())
        } else {
            Err(ValidationError::InvalidHmacTag)
        }
    }
}

} // verus!
