//! The keyed-hash catalog: the algorithms a proposal may advertise, the
//! sizes they report, and the signer/verifier capabilities they construct.

use vstd::prelude::*;

use crate::sha2::{max_hash_input, Sha2256Signer, Sha2256Verifier};

verus! {

/// The bytes of all the slices in `datas`, in order.
pub open spec fn spec_concat_slices(datas: Seq<&[u8]>) -> Seq<u8>
    decreases datas.len(),
{
    if datas.len() == 0 {
        Seq::empty()
    } else {
        spec_concat_slices(datas.drop_last()) + datas.last()@
    }
}

/// A capability that computes a MAC under a fixed key.
pub trait Signer {
    /// The MAC this signer computes over one message.
    spec fn spec_mac(&self, data: Seq<u8>) -> Seq<u8>;

    /// MAC length in bytes.
    spec fn spec_digest_len(&self) -> int;

    /// Inputs this signer accepts (the primitive's input-length limits).
    spec fn spec_input_ok(&self, data: Seq<u8>) -> bool;

    fn sign(&self, data: &[u8]) -> (r: Vec<u8>)
        requires
            self.spec_input_ok(data@),
        ensures
            r@ == self.spec_mac(data@),
            r@.len() == self.spec_digest_len(),
    ;

    /// MAC over the concatenation of several byte strings.
    fn sign_all(&self, datas: &[&[u8]]) -> (r: Vec<u8>)
        requires
            self.spec_input_ok(spec_concat_slices(datas@)),
        ensures
            r@ == self.spec_mac(spec_concat_slices(datas@)),
            r@.len() == self.spec_digest_len(),
    ;
}

/// A capability that checks a MAC under a fixed key.
pub trait Verifier {
    /// The MAC this verifier expects over one message.
    spec fn spec_mac(&self, data: Seq<u8>) -> Seq<u8>;

    /// MAC length in bytes.
    spec fn spec_digest_len(&self) -> int;

    /// Inputs this verifier accepts.
    spec fn spec_input_ok(&self, data: Seq<u8>) -> bool;

    fn verify(&self, data: &[u8], signature: &[u8]) -> (r: Result<(), ()>)
        requires
            self.spec_input_ok(data@),
        ensures
            r is Ok <==> signature@ == self.spec_mac(data@),
    ;

    fn digest_len(&self) -> (r: usize)
        ensures
            r == self.spec_digest_len(),
    ;
}

/// A keyed-hash algorithm a proposal may advertise.
#[derive(Eq, PartialEq, Debug, Clone, Copy, Structural)]
pub enum HashAlgorithm {
    Sha2256,
}

impl HashAlgorithm {
    /// The fixed, ordered catalog of supported keyed hashes.
    pub fn all() -> (r: Vec<HashAlgorithm>)
        ensures
            r@ == seq![HashAlgorithm::Sha2256],
    {
        let mut v: Vec<HashAlgorithm> = Vec::new();
        v.push(HashAlgorithm::Sha2256);
        proof {
            assert(v@ =~= seq![HashAlgorithm::Sha2256]);
        }
        v
    }

    /// MAC key size in bytes.
    pub open spec fn spec_key_size(self) -> int {
        20
    }

    pub fn key_size(self) -> (r: usize)
        ensures
            r == self.spec_key_size(),
    {
        20
    }

    /// The name this algorithm goes by on the wire.
    pub open spec fn spec_wire_name(self) -> Seq<u8> {
        seq![83u8, 72u8, 65u8, 50u8, 53u8, 54u8]
    }

    pub fn wire_name(self) -> (r: Vec<u8>)
        ensures
            r@ == self.spec_wire_name(),
    {
        let mut v: Vec<u8> = Vec::new();
        v.push(83);
        v.push(72);
        v.push(65);
        v.push(50);
        v.push(53);
        v.push(54);
        proof {
            assert(v@ =~= self.spec_wire_name());
        }
        v
    }

    /// Binds `key` into a signing capability.
    pub fn signer(self, key: &[u8]) -> (s: Sha2256Signer)
        ensures
            s@ == key@,
    {
        Sha2256Signer::new(key)
    }

    /// Binds `key` into a verification capability.
    pub fn verifier_for(self, key: &[u8]) -> (v: Sha2256Verifier)
        ensures
            v@ == key@,
    {
        Sha2256Verifier::new(key)
    }
}

} // verus!
