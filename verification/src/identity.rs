//! Host and peer identities at this library's boundary: an Ed25519 keypair
//! for the local host, and a peer identity derived from the public-key
//! bytes a proposal carries.
//!
//! Signing and verification live in an outside crate; verification is
//! named (`ed25519_verifies`) so the handshake contracts can say exactly
//! which exchanges are accepted.

use vstd::prelude::*;

use crate::SecioError;

verus! {

#[verifier::external_type_specification]
#[verifier::external_body]
pub struct ExEd25519KeyPair(ring::signature::Ed25519KeyPair);

/// Whether Ed25519 verification of `signature` over `msg` under the public
/// key `pub_key` succeeds: a fixed function of the three arguments.
pub uninterp spec fn ed25519_verifies(pub_key: Seq<u8>, msg: Seq<u8>, signature: Seq<u8>) -> bool;

/// Relies on ring::signature::UnparsedPublicKey::verify with ED25519:
/// verification is deterministic in the key, the message and the
/// signature.
#[verifier::external_body]
pub(crate) fn ed25519_verify(pub_key: &[u8], msg: &[u8], signature: &[u8]) -> (r: bool)
    ensures
        r == ed25519_verifies(pub_key@, msg@, signature@),
{
    let key = ring::signature::UnparsedPublicKey::new(&ring::signature::ED25519, pub_key);
    key.verify(msg, signature).is_ok()
}

/// The local host's identity: an Ed25519 keypair. The view is the public
/// key bytes; every constructor in this module stores the keypair's own
/// public half, so the two fields always agree.
pub struct HostId {
    keypair: ring::signature::Ed25519KeyPair,
    pub_key: Vec<u8>,
}

impl View for HostId {
    type V = Seq<u8>;

    closed spec fn view(&self) -> Seq<u8> {
        self.pub_key@
    }
}

/// Relies on ring::signature::Ed25519KeyPair::generate_pkcs8 and
/// from_pkcs8 with the system random source, and KeyPair::public_key: a
/// fresh identity whose public half is 32 bytes.
#[verifier::external_body]
fn ed25519_generate() -> (r: Result<HostId, ()>)
    ensures
        r is Ok ==> (r->Ok_0)@.len() == 32,
{
    let rng = ring::rand::SystemRandom::new();
    let doc = match ring::signature::Ed25519KeyPair::generate_pkcs8(&rng) {
        Ok(d) => d,
        Err(_) => return Err(()),
    };
    let keypair = match ring::signature::Ed25519KeyPair::from_pkcs8(doc.as_ref()) {
        Ok(k) => k,
        Err(_) => return Err(()),
    };
    let pub_key = ring::signature::KeyPair::public_key(&keypair).as_ref().to_vec();
    Ok(HostId { keypair, pub_key })
}

/// Relies on ring::signature::Ed25519KeyPair::from_seed_unchecked and
/// KeyPair::public_key: every 32-byte seed determines an identity, with a
/// 32-byte public half.
#[verifier::external_body]
fn ed25519_from_seed(seed: &[u8]) -> (r: Result<HostId, ()>)
    requires
        seed@.len() == 32,
    ensures
        r is Ok,
        r is Ok ==> (r->Ok_0)@.len() == 32,
{
    let keypair = match ring::signature::Ed25519KeyPair::from_seed_unchecked(seed) {
        Ok(k) => k,
        Err(_) => return Err(()),
    };
    let pub_key = ring::signature::KeyPair::public_key(&keypair).as_ref().to_vec();
    Ok(HostId { keypair, pub_key })
}

/// Relies on ring::signature::Ed25519KeyPair::sign, and on Ed25519
/// verification accepting every signature that signing produces: the
/// 64-byte signature verifies under this host's public key (the module
/// keeps `pub_key` equal to the keypair's public half).
#[verifier::external_body]
fn ed25519_sign(host: &HostId, msg: &[u8]) -> (r: Vec<u8>)
    ensures
        r@.len() == 64,
        ed25519_verifies(host@, msg@, r@),
{
    host.keypair.sign(msg).as_ref().to_vec()
}

impl HostId {
    /// Generates a fresh Ed25519 identity from the system random source.
    pub fn generate() -> (r: Result<HostId, SecioError>)
        ensures
            r is Ok ==> (r->Ok_0)@.len() == 32,
            r is Err ==> r->Err_0 == SecioError::KeyGenerationFailed,
    {
        match ed25519_generate() {
            Ok(h) => Ok(h),
            Err(_) => Err(SecioError::KeyGenerationFailed),
        }
    }

    /// The identity determined by a 32-byte seed; a seed of any other
    /// length is rejected. Useful for fixed identities in tests.
    pub fn from_seed(seed: &[u8]) -> (r: Result<HostId, SecioError>)
        ensures
            seed@.len() == 32 ==> r is Ok && (r->Ok_0)@.len() == 32,
            seed@.len() != 32 ==> r is Err,
            r is Err ==> r->Err_0 == SecioError::KeyGenerationFailed,
    {
        if seed.len() != 32 {
            return Err(SecioError::KeyGenerationFailed);
        }
        match ed25519_from_seed(seed) {
            Ok(h) => Ok(h),
            Err(_) => Err(SecioError::KeyGenerationFailed),
        }
    }

    /// This identity's public key bytes, as placed in the Proposal.
    pub fn pub_key(&self) -> (r: &[u8])
        ensures
            r@ == self@,
    {
        self.pub_key.as_slice()
    }

    /// Signs `data` with this identity's private key; the signature
    /// verifies under this identity's public key.
    pub fn sign(&self, data: &[u8]) -> (r: Vec<u8>)
        ensures
            r@.len() == 64,
            ed25519_verifies(self@, data@, r@),
    {
        ed25519_sign(self, data)
    }
}

/// A peer identity: either not yet known, or a public identity key. The
/// view is `None` for `Unknown` and the key bytes otherwise.
#[derive(Debug, Clone)]
pub enum PeerId {
    Unknown,
    Key(Vec<u8>),
}

impl View for PeerId {
    type V = Option<Seq<u8>>;

    open spec fn view(&self) -> Option<Seq<u8>> {
        match self {
            PeerId::Unknown => None,
            PeerId::Key(k) => Some(k@),
        }
    }
}

impl PeerId {
    /// Derives the peer identity from the public-key bytes a proposal
    /// carries; bytes of the wrong length for an identity key are
    /// malformed.
    pub fn from_pub_key_bytes(bytes: &[u8]) -> (r: Result<PeerId, SecioError>)
        ensures
            bytes@.len() == 32 ==> r is Ok && (r->Ok_0)@ == Some(bytes@),
            bytes@.len() != 32 ==> r is Err && r->Err_0 == SecioError::MalformedMessage,
    {
        if bytes.len() == 32 {
            Ok(PeerId::Key(vstd::slice::slice_to_vec(bytes)))
        } else {
            Err(SecioError::MalformedMessage)
        }
    }

    /// Whether the two identities carry the same key; `Unknown` matches
    /// nothing.
    pub fn matches(&self, other: &PeerId) -> (r: bool)
        ensures
            r == (self@ is Some && other@ is Some && self@->0 == other@->0),
    {
        match (self, other) {
            (PeerId::Key(a), PeerId::Key(b)) => crate::handshake::bytes_eq(
                a.as_slice(),
                b.as_slice(),
            ),
            _ => false,
        }
    }

    /// Whether this identity is still unknown.
    pub fn is_unknown(&self) -> (r: bool)
        ensures
            r == (self@ is None),
    {
        match self {
            PeerId::Unknown => true,
            PeerId::Key(_) => false,
        }
    }
}

} // verus!
