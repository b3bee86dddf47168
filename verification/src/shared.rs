//! The negotiated session bundle: one encryptor and MAC signer for the
//! local sending direction, one decryptor and MAC verifier for the remote
//! direction, each bound to its own key and IV. Built once at the end of a
//! successful handshake and never rekeyed.

use vstd::prelude::*;

use crate::aes::{aes256_ctr_keystream, xor_bytes, Aes256Decryptor, Aes256Encryptor, CtrStateView};
use crate::cipher::{Decryptor, Encryptor};
use crate::hash::{spec_concat_slices, Signer, Verifier};
use crate::sha2::{hmac_sha256_of, max_hash_input, Sha2256Signer, Sha2256Verifier};

verus! {

/// Mathematical image of a session bundle: two cipher states and two MAC
/// keys.
pub struct SharedView {
    pub encryptor: CtrStateView,
    pub decryptor: CtrStateView,
    pub signer: Seq<u8>,
    pub verifier: Seq<u8>,
}

impl SharedView {
    /// Well-formed key material: cipher states with the fixed AES-256-CTR
    /// sizes, MAC keys small enough for the primitive.
    pub open spec fn wf(self) -> bool {
        &&& self.encryptor.wf()
        &&& self.decryptor.wf()
        &&& self.signer.len() < max_hash_input()
        &&& self.verifier.len() < max_hash_input()
    }
}

/// The shared session algorithms, directions fixed for the session's life.
#[derive(Debug)]
pub struct SharedAlgorithms {
    pub encryptor: Aes256Encryptor,
    pub decryptor: Aes256Decryptor,
    pub signer: Sha2256Signer,
    pub verifier: Sha2256Verifier,
}

impl View for SharedAlgorithms {
    type V = SharedView;

    open spec fn view(&self) -> SharedView {
        SharedView {
            encryptor: self.encryptor@,
            decryptor: self.decryptor@,
            signer: self.signer@,
            verifier: self.verifier@,
        }
    }
}

impl SharedAlgorithms {
    /// Encrypts one outgoing message with the local cipher state, advancing
    /// it by the message length; everything else is untouched.
    pub fn encrypt(&mut self, data: &[u8]) -> (r: Result<Vec<u8>, ()>)
        requires
            old(self)@.wf(),
            old(self)@.encryptor.offset + data@.len() <= u64::MAX,
        ensures
            r is Ok,
            (r->Ok_0)@ == xor_bytes(
                data@,
                aes256_ctr_keystream(
                    old(self)@.encryptor.key,
                    old(self)@.encryptor.iv,
                    old(self)@.encryptor.offset,
                    data@.len() as nat,
                ),
            ),
            (r->Ok_0)@.len() == data@.len(),
            final(self)@ == (SharedView {
                encryptor: old(self)@.encryptor.advanced(data@.len() as nat),
                ..old(self)@
            }),
    {
        self.encryptor.encrypt(data)
    }

    /// Decrypts one incoming ciphertext with the remote cipher state,
    /// advancing it by the ciphertext length; everything else is untouched.
    pub fn decrypt(&mut self, data: &[u8]) -> (r: Result<Vec<u8>, ()>)
        requires
            old(self)@.wf(),
            old(self)@.decryptor.offset + data@.len() <= u64::MAX,
        ensures
            r is Ok,
            (r->Ok_0)@ == xor_bytes(
                data@,
                aes256_ctr_keystream(
                    old(self)@.decryptor.key,
                    old(self)@.decryptor.iv,
                    old(self)@.decryptor.offset,
                    data@.len() as nat,
                ),
            ),
            (r->Ok_0)@.len() == data@.len(),
            final(self)@ == (SharedView {
                decryptor: old(self)@.decryptor.advanced(data@.len() as nat),
                ..old(self)@
            }),
    {
        self.decryptor.decrypt(data)
    }

    /// MAC of one outgoing ciphertext under the local MAC key.
    pub fn sign(&self, data: &[u8]) -> (r: Vec<u8>)
        requires
            self@.signer.len() < max_hash_input(),
            data@.len() < max_hash_input(),
        ensures
            r@ == hmac_sha256_of(self@.signer, data@),
            r@.len() == 32,
    {
        self.signer.sign(data)
    }

    /// MAC of the concatenation of several byte strings under the local MAC
    /// key.
    pub fn sign_all(&self, datas: &[&[u8]]) -> (r: Vec<u8>)
        requires
            self@.signer.len() < max_hash_input(),
            spec_concat_slices(datas@).len() < max_hash_input(),
        ensures
            r@ == hmac_sha256_of(self@.signer, spec_concat_slices(datas@)),
            r@.len() == 32,
    {
        self.signer.sign_all(datas)
    }

    /// Checks one incoming MAC under the remote MAC key; succeeds exactly
    /// when the MAC matches.
    pub fn verify(&self, data: &[u8], signature: &[u8]) -> (r: Result<(), ()>)
        requires
            self@.verifier.len() < max_hash_input(),
            data@.len() < max_hash_input(),
        ensures
            r is Ok <==> signature@ == hmac_sha256_of(self@.verifier, data@),
    {
        self.verifier.verify(data, signature)
    }

    /// How many keystream bytes the sending direction has consumed.
    pub fn encryptor_offset(&self) -> (r: u64)
        ensures
            r == self@.encryptor.offset,
    {
        self.encryptor.offset()
    }

    /// How many keystream bytes the receiving direction has consumed.
    pub fn decryptor_offset(&self) -> (r: u64)
        ensures
            r == self@.decryptor.offset,
    {
        self.decryptor.offset()
    }

    /// Length of the MACs this session produces and expects.
    pub fn digest_len(&self) -> (r: usize)
        ensures
            r == 32,
    {
        self.verifier.digest_len()
    }
}

impl Encryptor for SharedAlgorithms {
    open spec fn spec_state(&self) -> CtrStateView {
        self@.encryptor
    }

    open spec fn spec_transform(&self, data: Seq<u8>) -> Seq<u8> {
        xor_bytes(
            data,
            aes256_ctr_keystream(
                self@.encryptor.key,
                self@.encryptor.iv,
                self@.encryptor.offset,
                data.len(),
            ),
        )
    }

    fn encrypt(&mut self, data: &[u8]) -> (r: Result<Vec<u8>, ()>) {
        self.encryptor.encrypt(data)
    }
}

impl Decryptor for SharedAlgorithms {
    open spec fn spec_state(&self) -> CtrStateView {
        self@.decryptor
    }

    open spec fn spec_transform(&self, data: Seq<u8>) -> Seq<u8> {
        xor_bytes(
            data,
            aes256_ctr_keystream(
                self@.decryptor.key,
                self@.decryptor.iv,
                self@.decryptor.offset,
                data.len(),
            ),
        )
    }

    fn decrypt(&mut self, data: &[u8]) -> (r: Result<Vec<u8>, ()>) {
        self.decryptor.decrypt(data)
    }
}

impl Signer for SharedAlgorithms {
    open spec fn spec_mac(&self, data: Seq<u8>) -> Seq<u8> {
        hmac_sha256_of(self@.signer, data)
    }

    open spec fn spec_digest_len(&self) -> int {
        32
    }

    open spec fn spec_input_ok(&self, data: Seq<u8>) -> bool {
        self@.signer.len() < max_hash_input() && data.len() < max_hash_input()
    }

    fn sign(&self, data: &[u8]) -> (r: Vec<u8>) {
        self.signer.sign(data)
    }

    fn sign_all(&self, datas: &[&[u8]]) -> (r: Vec<u8>) {
        self.signer.sign_all(datas)
    }
}

impl Verifier for SharedAlgorithms {
    open spec fn spec_mac(&self, data: Seq<u8>) -> Seq<u8> {
        hmac_sha256_of(self@.verifier, data)
    }

    open spec fn spec_digest_len(&self) -> int {
        32
    }

    open spec fn spec_input_ok(&self, data: Seq<u8>) -> bool {
        self@.verifier.len() < max_hash_input() && data.len() < max_hash_input()
    }

    fn verify(&self, data: &[u8], signature: &[u8]) -> (r: Result<(), ()>) {
        self.verifier.verify(data, signature)
    }

    fn digest_len(&self) -> (r: usize) {
        self.verifier.digest_len()
    }
}

} // verus!
