//! HMAC-SHA-256 signing and verification, and the SHA-256 digest used for
//! role ordering.
//!
//! The primitives themselves live in an outside crate; this module gives
//! their results names (`hmac_sha256_of`, `sha256_of`) that the rest of the
//! library's contracts are stated over.

use vstd::prelude::*;

use crate::hash::{Signer, Verifier};

verus! {

/// Upper bound, in bytes, on any single input handed to the SHA-256-based
/// primitives. SHA-256 itself accepts inputs up to 2^61 - 1 bytes; staying
/// strictly below 2^60 keeps every call well inside that limit.
pub open spec fn max_hash_input() -> int {
    0x1000000000000000
}

/// The HMAC-SHA-256 tag over `data` under `key`: a fixed function of the two
/// arguments alone.
pub uninterp spec fn hmac_sha256_of(key: Seq<u8>, data: Seq<u8>) -> Seq<u8>;

/// The SHA-256 digest of `data`: a fixed function of the data alone.
pub uninterp spec fn sha256_of(data: Seq<u8>) -> Seq<u8>;

/// Relies on ring's hmac module (Key::new with HMAC_SHA256, then sign): the
/// tag depends on the key and the data alone and is 32 bytes long.
#[verifier::external_body]
pub(crate) fn hmac_sha256(key: &[u8], data: &[u8]) -> (r: Vec<u8>)
    requires
        key@.len() < max_hash_input(),
        data@.len() < max_hash_input(),
    ensures
        r@ == hmac_sha256_of(key@, data@),
        r@.len() == 32,
{
    let k = ring::hmac::Key::new(ring::hmac::HMAC_SHA256, key);
    ring::hmac::sign(&k, data).as_ref().to_vec()
}

/// Relies on ring::hmac::verify: it recomputes the HMAC of `data` under
/// `key` and succeeds exactly when the result equals `tag`.
#[verifier::external_body]
pub(crate) fn hmac_sha256_check(key: &[u8], data: &[u8], tag: &[u8]) -> (r: bool)
    requires
        key@.len() < max_hash_input(),
        data@.len() < max_hash_input(),
    ensures
        r == (tag@ == hmac_sha256_of(key@, data@)),
{
    let k = ring::hmac::Key::new(ring::hmac::HMAC_SHA256, key);
    ring::hmac::verify(&k, data, tag).is_ok()
}

/// Relies on ring::digest::digest with SHA256: 32 bytes, a function of the
/// data alone.
#[verifier::external_body]
pub(crate) fn sha256(data: &[u8]) -> (r: Vec<u8>)
    requires
        data@.len() < max_hash_input(),
    ensures
        r@ == sha256_of(data@),
        r@.len() == 32,
{
    ring::digest::digest(&ring::digest::SHA256, data).as_ref().to_vec()
}

/// An HMAC-SHA-256 signer bound to one MAC key.
#[derive(Debug)]
pub struct Sha2256Signer {
    key: Vec<u8>,
}

impl View for Sha2256Signer {
    type V = Seq<u8>;

    closed spec fn view(&self) -> Seq<u8> {
        self.key@
    }
}

impl Sha2256Signer {
    pub fn new(key: &[u8]) -> (s: Sha2256Signer)
        ensures
            s@ == key@,
    {
        Sha2256Signer { key: vstd::slice::slice_to_vec(key) }
    }
}

/// An HMAC-SHA-256 verifier bound to one MAC key.
#[derive(Debug)]
pub struct Sha2256Verifier {
    key: Vec<u8>,
}

impl View for Sha2256Verifier {
    type V = Seq<u8>;

    closed spec fn view(&self) -> Seq<u8> {
        self.key@
    }
}

impl Sha2256Verifier {
    pub fn new(key: &[u8]) -> (v: Sha2256Verifier)
        ensures
            v@ == key@,
    {
        Sha2256Verifier { key: vstd::slice::slice_to_vec(key) }
    }
}

impl Signer for Sha2256Signer {
    open spec fn spec_mac(&self, data: Seq<u8>) -> Seq<u8> {
        hmac_sha256_of(self@, data)
    }

    open spec fn spec_digest_len(&self) -> int {
        32
    }

    open spec fn spec_input_ok(&self, data: Seq<u8>) -> bool {
        self@.len() < max_hash_input() && data.len() < max_hash_input()
    }

    fn sign(&self, data: &[u8]) -> (r: Vec<u8>) {
        hmac_sha256(self.key.as_slice(), data)
    }

    fn sign_all(&self, datas: &[&[u8]]) -> (r: Vec<u8>) {
        let mut buf: Vec<u8> = Vec::new();
        let mut i: usize = 0;
        proof {
            assert(datas@.take(0) =~= Seq::<&[u8]>::empty());
        }
        while i < datas.len()
            invariant
                i <= datas@.len(),
                buf@ == crate::hash::spec_concat_slices(datas@.take(i as int)),
                crate::hash::spec_concat_slices(datas@).len() < max_hash_input(),
                self@.len() < max_hash_input(),
            decreases datas@.len() - i,
        {
            proof {
                assert(datas@.take(i + 1).drop_last() =~= datas@.take(i as int));
            }
            buf.extend_from_slice(datas[i]);
            i = i + 1;
        }
        proof {
            assert(datas@.take(datas@.len() as int) =~= datas@);
        }
        hmac_sha256(self.key.as_slice(), buf.as_slice())
    }
}

impl Verifier for Sha2256Verifier {
    open spec fn spec_mac(&self, data: Seq<u8>) -> Seq<u8> {
        hmac_sha256_of(self@, data)
    }

    open spec fn spec_digest_len(&self) -> int {
        32
    }

    open spec fn spec_input_ok(&self, data: Seq<u8>) -> bool {
        self@.len() < max_hash_input() && data.len() < max_hash_input()
    }

    fn verify(&self, data: &[u8], signature: &[u8]) -> (r: Result<(), ()>) {
        if hmac_sha256_check(self.key.as_slice(), data, signature) {
            Ok(())
        } else {
            Err(())
        }
    }

    fn digest_len(&self) -> (r: usize) {
        32
    }
}

} // verus!
