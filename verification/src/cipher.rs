//! The symmetric-cipher catalog: the algorithms a proposal may advertise,
//! the sizes they report, and the encryptor/decryptor capabilities they
//! construct.

use vstd::prelude::*;

use crate::aes::{Aes256Decryptor, Aes256Encryptor, CtrStateView};

verus! {

/// A capability that encrypts a stream of messages, advancing an internal
/// stream-cipher position with every call.
pub trait Encryptor {
    /// The counter-mode state this capability drives.
    spec fn spec_state(&self) -> CtrStateView;

    /// The bytes this capability would produce for `data` in its current
    /// state.
    spec fn spec_transform(&self, data: Seq<u8>) -> Seq<u8>;

    fn encrypt(&mut self, data: &[u8]) -> (r: Result<Vec<u8>, ()>)
        requires
            old(self).spec_state().wf(),
            old(self).spec_state().offset + data@.len() <= u64::MAX,
        ensures
            r is Ok,
            (r->Ok_0)@ == old(self).spec_transform(data@),
            (r->Ok_0)@.len() == data@.len(),
            final(self).spec_state() == old(self).spec_state().advanced(data@.len() as nat),
    ;
}

/// A capability that decrypts a stream of messages, advancing an internal
/// stream-cipher position with every call.
pub trait Decryptor {
    /// The counter-mode state this capability drives.
    spec fn spec_state(&self) -> CtrStateView;

    /// The bytes this capability would recover from `data` in its current
    /// state.
    spec fn spec_transform(&self, data: Seq<u8>) -> Seq<u8>;

    fn decrypt(&mut self, data: &[u8]) -> (r: Result<Vec<u8>, ()>)
        requires
            old(self).spec_state().wf(),
            old(self).spec_state().offset + data@.len() <= u64::MAX,
        ensures
            r is Ok,
            (r->Ok_0)@ == old(self).spec_transform(data@),
            (r->Ok_0)@.len() == data@.len(),
            final(self).spec_state() == old(self).spec_state().advanced(data@.len() as nat),
    ;
}

/// A symmetric cipher a proposal may advertise.
#[derive(Eq, PartialEq, Debug, Clone, Copy, Structural)]
pub enum CipherAlgorithm {
    Aes256,
}

impl CipherAlgorithm {
    /// The fixed, ordered catalog of supported ciphers.
    pub fn all() -> (r: Vec<CipherAlgorithm>)
        ensures
            r@ == seq![CipherAlgorithm::Aes256],
    {
        let mut v: Vec<CipherAlgorithm> = Vec::new();
        v.push(CipherAlgorithm::Aes256);
        proof {
            assert(v@ =~= seq![CipherAlgorithm::Aes256]);
        }
        v
    }

    /// Cipher key size in bytes.
    pub open spec fn spec_key_size(self) -> int {
        32
    }

    pub fn key_size(self) -> (r: usize)
        ensures
            r == self.spec_key_size(),
    {
        32
    }

    /// Cipher IV size in bytes.
    pub open spec fn spec_iv_size(self) -> int {
        16
    }

    pub fn iv_size(self) -> (r: usize)
        ensures
            r == self.spec_iv_size(),
    {
        16
    }

    /// The name this algorithm goes by on the wire.
    pub open spec fn spec_wire_name(self) -> Seq<u8> {
        seq![65u8, 69u8, 83u8, 45u8, 50u8, 53u8, 54u8]
    }

    pub fn wire_name(self) -> (r: Vec<u8>)
        ensures
            r@ == self.spec_wire_name(),
    {
        let mut v: Vec<u8> = Vec::new();
        v.push(65);
        v.push(69);
        v.push(83);
        v.push(45);
        v.push(50);
        v.push(53);
        v.push(54);
        proof {
            assert(v@ =~= self.spec_wire_name());
        }
        v
    }

    /// Binds key material into the sending-direction cipher state.
    pub fn encryptor(self, key: &[u8], iv: &[u8]) -> (e: Aes256Encryptor)
        requires
            key@.len() == self.spec_key_size(),
            iv@.len() == self.spec_iv_size(),
        ensures
            e@ == (CtrStateView { key: key@, iv: iv@, offset: 0 }),
    {
        Aes256Encryptor::new(key, iv)
    }

    /// Binds key material into the receiving-direction cipher state.
    pub fn decryptor(self, key: &[u8], iv: &[u8]) -> (d: Aes256Decryptor)
        requires
            key@.len() == self.spec_key_size(),
            iv@.len() == self.spec_iv_size(),
        ensures
            d@ == (CtrStateView { key: key@, iv: iv@, offset: 0 }),
    {
        Aes256Decryptor::new(key, iv)
    }
}

} // verus!
