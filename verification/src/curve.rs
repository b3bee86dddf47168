//! The key-exchange curve catalog: the curves a proposal may advertise and
//! the ephemeral private keys they generate.

use vstd::prelude::*;

use crate::cipher::CipherAlgorithm;
use crate::ecdh;
use crate::hash::HashAlgorithm;
use crate::shared::SharedAlgorithms;
use crate::SecioError;

verus! {

/// A key-exchange curve a proposal may advertise.
#[derive(Eq, PartialEq, Debug, Clone, Copy, Structural)]
pub enum CurveAlgorithm {
    EcdhP384,
}

/// An ephemeral private key of one of the supported curves; its view is the
/// key's public bytes.
pub enum CurvePrivateKey {
    ECDH(ecdh::PrivateKey),
}

impl View for CurvePrivateKey {
    type V = Seq<u8>;

    closed spec fn view(&self) -> Seq<u8> {
        match self {
            CurvePrivateKey::ECDH(k) => k@,
        }
    }
}

impl CurveAlgorithm {
    /// The fixed, ordered catalog of supported curves.
    pub fn all() -> (r: Vec<CurveAlgorithm>)
        ensures
            r@ == seq![CurveAlgorithm::EcdhP384],
    {
        let mut v: Vec<CurveAlgorithm> = Vec::new();
        v.push(CurveAlgorithm::EcdhP384);
        proof {
            assert(v@ =~= seq![CurveAlgorithm::EcdhP384]);
        }
        v
    }

    /// The name this curve goes by on the wire.
    pub open spec fn spec_wire_name(self) -> Seq<u8> {
        seq![80u8, 45u8, 51u8, 56u8, 52u8]
    }

    pub fn wire_name(self) -> (r: Vec<u8>)
        ensures
            r@ == self.spec_wire_name(),
    {
        let mut v: Vec<u8> = Vec::new();
        v.push(80);
        v.push(45);
        v.push(51);
        v.push(56);
        v.push(52);
        proof {
            assert(v@ =~= self.spec_wire_name());
        }
        v
    }

    /// Generates a fresh ephemeral keypair for this curve; a failure of the
    /// underlying random source or primitive is fatal to the handshake.
    pub fn generate_priv_key(self) -> (r: Result<CurvePrivateKey, SecioError>)
        ensures
            r is Err ==> r->Err_0 == SecioError::KeyGenerationFailed,
    {
        match ecdh::generate() {
            Ok(k) => Ok(CurvePrivateKey::ECDH(k)),
            Err(e) => Err(e),
        }
    }
}

impl CurvePrivateKey {
    /// This keypair's public bytes, as sent in the Exchange message.
    pub fn pub_key(&self) -> (r: &[u8])
        ensures
            r@ == self@,
    {
        match self {
            CurvePrivateKey::ECDH(k) => k.pub_key(),
        }
    }

    /// Consumes the key and derives the session bundle; see
    /// `ecdh::PrivateKey::agree_with`.
    pub fn agree_with(
        self,
        their_pub_key: &[u8],
        hash: HashAlgorithm,
        cipher: CipherAlgorithm,
        swapped: bool,
    ) -> (r: Result<SharedAlgorithms, SecioError>)
        ensures
            r is Ok ==> (r->Ok_0)@.wf(),
            r is Ok ==> exists|secret: Seq<u8>|
                (r->Ok_0)@ == #[trigger] ecdh::spec_shared_algorithms(
                    secret,
                    hash,
                    cipher,
                    swapped,
                ),
            r is Err ==> r->Err_0 == SecioError::KeyAgreementFailed,
    {
        match self {
            CurvePrivateKey::ECDH(k) => k.agree_with(their_pub_key, hash, cipher, swapped),
        }
    }
}

} // verus!
