//! AES-256 in counter mode, as a pair of direction-bound stream-cipher
//! states.
//!
//! A counter-mode state is fully described by its key, its initial counter
//! block, and how many keystream bytes it has consumed; the keystream bytes
//! themselves come from an outside crate and are named by
//! `aes256_ctr_keystream`. Encrypting and decrypting are both an XOR against
//! that keystream, so the states here hold plain values and every state
//! change is verified.

use vstd::prelude::*;

use ctr::cipher::{KeyIvInit, StreamCipher, StreamCipherSeek};

use crate::cipher::{Decryptor, Encryptor};

verus! {

/// Mathematical image of a counter-mode cipher state.
pub struct CtrStateView {
    pub key: Seq<u8>,
    pub iv: Seq<u8>,
    pub offset: nat,
}

impl CtrStateView {
    /// A well-formed AES-256-CTR state: fixed key and counter-block sizes.
    pub open spec fn wf(self) -> bool {
        self.key.len() == 32 && self.iv.len() == 16
    }

    /// The same state, `n` keystream bytes later.
    pub open spec fn advanced(self, n: nat) -> CtrStateView {
        CtrStateView { offset: self.offset + n, ..self }
    }
}

/// Pointwise XOR; the result follows `a`'s length.
pub open spec fn xor_bytes(a: Seq<u8>, b: Seq<u8>) -> Seq<u8>
    recommends
        a.len() == b.len(),
{
    Seq::new(a.len(), |i: int| a[i] ^ b[i])
}

/// XORing twice with the same bytes gives the input back.
pub proof fn lemma_xor_involution(a: Seq<u8>, b: Seq<u8>)
    requires
        a.len() == b.len(),
    ensures
        xor_bytes(xor_bytes(a, b), b) == a,
{
    assert forall|i: int| 0 <= i < a.len() implies xor_bytes(xor_bytes(a, b), b)[i] == a[i] by {
        let x = a[i];
        let y = b[i];
        assert((x ^ y) ^ y == x) by (bit_vector);
    }
    assert(xor_bytes(xor_bytes(a, b), b) =~= a);
}

/// The AES-256-CTR keystream bytes for a key and counter block, `len` bytes
/// starting `offset` bytes into the stream: a fixed function of those
/// arguments alone.
pub uninterp spec fn aes256_ctr_keystream(key: Seq<u8>, iv: Seq<u8>, offset: nat, len: nat) -> Seq<
    u8,
>;

/// Relies on ctr::Ctr128BE over aes::Aes256 (through the cipher traits
/// KeyIvInit, StreamCipherSeek and StreamCipher): seeking to a byte position
/// and applying the cipher XORs the data with the keystream bytes at that
/// position, and the keystream depends on key, counter block and position
/// alone. The keystream of a 128-bit counter is far longer than any `u64`
/// offset, so no call here can exhaust it.
#[verifier::external_body]
fn aes256_ctr_process(key: &[u8], iv: &[u8], offset: u64, data: &[u8]) -> (r: Vec<u8>)
    requires
        key@.len() == 32,
        iv@.len() == 16,
        offset + data@.len() <= u64::MAX,
    ensures
        r@ == xor_bytes(data@, aes256_ctr_keystream(key@, iv@, offset as nat, data@.len() as nat)),
        r@.len() == aes256_ctr_keystream(key@, iv@, offset as nat, data@.len() as nat).len(),
        r@.len() == data@.len(),
{
    let mut cipher: ctr::Ctr128BE<aes::Aes256> = KeyIvInit::new_from_slices(key, iv)
        .expect("key and iv sizes are checked by the caller");
    StreamCipherSeek::seek(&mut cipher, offset);
    let mut buf = data.to_vec();
    StreamCipher::apply_keystream(&mut cipher, &mut buf);
    buf
}

/// The sending half of a session: AES-256-CTR bound to the local key and IV.
#[derive(Debug)]
pub struct Aes256Encryptor {
    key: Vec<u8>,
    iv: Vec<u8>,
    offset: u64,
}

impl View for Aes256Encryptor {
    type V = CtrStateView;

    closed spec fn view(&self) -> CtrStateView {
        CtrStateView { key: self.key@, iv: self.iv@, offset: self.offset as nat }
    }
}

impl Aes256Encryptor {
    /// How many keystream bytes this state has consumed.
    pub fn offset(&self) -> (r: u64)
        ensures
            r == self@.offset,
    {
        self.offset
    }

    pub fn new(key: &[u8], iv: &[u8]) -> (e: Aes256Encryptor)
        requires
            key@.len() == 32,
            iv@.len() == 16,
        ensures
            e@ == (CtrStateView { key: key@, iv: iv@, offset: 0 }),
    {
        Aes256Encryptor {
            key: vstd::slice::slice_to_vec(key),
            iv: vstd::slice::slice_to_vec(iv),
            offset: 0,
        }
    }
}

/// The receiving half of a session: the same stream cipher bound to the
/// remote key and IV.
#[derive(Debug)]
pub struct Aes256Decryptor {
    key: Vec<u8>,
    iv: Vec<u8>,
    offset: u64,
}

impl View for Aes256Decryptor {
    type V = CtrStateView;

    closed spec fn view(&self) -> CtrStateView {
        CtrStateView { key: self.key@, iv: self.iv@, offset: self.offset as nat }
    }
}

impl Aes256Decryptor {
    /// How many keystream bytes this state has consumed.
    pub fn offset(&self) -> (r: u64)
        ensures
            r == self@.offset,
    {
        self.offset
    }

    pub fn new(key: &[u8], iv: &[u8]) -> (d: Aes256Decryptor)
        requires
            key@.len() == 32,
            iv@.len() == 16,
        ensures
            d@ == (CtrStateView { key: key@, iv: iv@, offset: 0 }),
    {
        Aes256Decryptor {
            key: vstd::slice::slice_to_vec(key),
            iv: vstd::slice::slice_to_vec(iv),
            offset: 0,
        }
    }
}

impl Encryptor for Aes256Encryptor {
    open spec fn spec_state(&self) -> CtrStateView {
        self@
    }

    open spec fn spec_transform(&self, data: Seq<u8>) -> Seq<u8> {
        xor_bytes(data, aes256_ctr_keystream(self@.key, self@.iv, self@.offset, data.len()))
    }

    fn encrypt(&mut self, data: &[u8]) -> (r: Result<Vec<u8>, ()>) {
        let out = aes256_ctr_process(self.key.as_slice(), self.iv.as_slice(), self.offset, data);
        self.offset = self.offset + data.len() as u64;
        Ok(out)
    }
}

impl Decryptor for Aes256Decryptor {
    open spec fn spec_state(&self) -> CtrStateView {
        self@
    }

    open spec fn spec_transform(&self, data: Seq<u8>) -> Seq<u8> {
        xor_bytes(data, aes256_ctr_keystream(self@.key, self@.iv, self@.offset, data.len()))
    }

    fn decrypt(&mut self, data: &[u8]) -> (r: Result<Vec<u8>, ()>) {
        let out = aes256_ctr_process(self.key.as_slice(), self.iv.as_slice(), self.offset, data);
        self.offset = self.offset + data.len() as u64;
        Ok(out)
    }
}

} // verus!
