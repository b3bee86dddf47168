//! Ephemeral P-384 key agreement and the key-derivation function that turns
//! the raw shared secret into per-direction session key material.
//!
//! The Diffie-Hellman primitive lives in an outside crate behind trusted
//! wrappers; the expansion of the secret into key material, the split into
//! halves, and the directional assignment are verified here.

use vstd::prelude::*;

use crate::aes::CtrStateView;
use crate::cipher::CipherAlgorithm;
use crate::hash::HashAlgorithm;
use crate::sha2::{hmac_sha256, hmac_sha256_of, max_hash_input};
use crate::shared::{SharedAlgorithms, SharedView};
use crate::SecioError;

verus! {

#[verifier::external_type_specification]
#[verifier::external_body]
pub struct ExEphemeralPrivateKey(ring::agreement::EphemeralPrivateKey);

/// The fixed ASCII seed ("key expansion") mixed into every block of the
/// key-derivation chain.
pub open spec fn spec_kdf_seed() -> Seq<u8> {
    seq![
        107u8,
        101u8,
        121u8,
        32u8,
        101u8,
        120u8,
        112u8,
        97u8,
        110u8,
        115u8,
        105u8,
        111u8,
        110u8,
    ]
}

fn kdf_seed() -> (r: Vec<u8>)
    ensures
        r@ == spec_kdf_seed(),
{
    let mut v: Vec<u8> = Vec::new();
    v.push(107);
    v.push(101);
    v.push(121);
    v.push(32);
    v.push(101);
    v.push(120);
    v.push(112);
    v.push(97);
    v.push(110);
    v.push(115);
    v.push(105);
    v.push(111);
    v.push(110);
    proof {
        assert(v@ =~= spec_kdf_seed());
    }
    v
}

/// The chaining value before block `i` of the expansion:
/// `a_0 = MAC(secret, seed)`, `a_{i+1} = MAC(secret, a_i)`.
pub open spec fn spec_kdf_a(secret: Seq<u8>, i: nat) -> Seq<u8>
    decreases i,
{
    if i == 0 {
        hmac_sha256_of(secret, spec_kdf_seed())
    } else {
        hmac_sha256_of(secret, spec_kdf_a(secret, (i - 1) as nat))
    }
}

/// The first `count` blocks of the expansion stream, concatenated: block
/// `i` is `MAC(secret, a_i ‖ seed)`.
pub open spec fn spec_kdf_stream(secret: Seq<u8>, count: nat) -> Seq<u8>
    decreases count,
{
    if count == 0 {
        Seq::empty()
    } else {
        spec_kdf_stream(secret, (count - 1) as nat) + hmac_sha256_of(
            secret,
            spec_kdf_a(secret, (count - 1) as nat) + spec_kdf_seed(),
        )
    }
}

/// Exactly `required` bytes of the expansion stream: as many 32-byte blocks
/// as needed, truncated.
pub open spec fn spec_kdf_bytes(secret: Seq<u8>, required: nat) -> Seq<u8> {
    spec_kdf_stream(secret, ((required + 31) / 32) as nat).take(required as int)
}

/// Expands `secret` into exactly `required` bytes by the keyed-hash
/// feedback chain. The result is a function of the secret and the length
/// alone, so both peers compute identical bytes from the same secret.
pub fn expand_key(secret: &[u8], required: usize) -> (r: Vec<u8>)
    requires
        secret@.len() < max_hash_input(),
        required <= 65536,
    ensures
        r@ == spec_kdf_bytes(secret@, required as nat),
        r@.len() == required,
{
    let seed = kdf_seed();
    let mut a = hmac_sha256(secret, seed.as_slice());
    let mut bytes: Vec<u8> = Vec::new();
    let mut i: usize = 0;
    while bytes.len() < required
        invariant
            bytes@ == spec_kdf_stream(secret@, i as nat),
            bytes@.len() == 32 * i,
            32 * i <= required + 31,
            a@ == spec_kdf_a(secret@, i as nat),
            a@.len() == 32,
            seed@ == spec_kdf_seed(),
            secret@.len() < max_hash_input(),
            required <= 65536,
        decreases required + 32 - bytes@.len(),
    {
        let ghost i0 = i as nat;
        let ghost a0 = a@;
        let mut buf: Vec<u8> = Vec::new();
        buf.extend_from_slice(a.as_slice());
        buf.extend_from_slice(seed.as_slice());
        proof {
            assert(buf@ =~= a0 + spec_kdf_seed());
        }
        let block = hmac_sha256(secret, buf.as_slice());
        bytes.extend_from_slice(block.as_slice());
        a = hmac_sha256(secret, a.as_slice());
        i = i + 1;
        proof {
            assert(spec_kdf_stream(secret@, (i0 + 1) as nat) == spec_kdf_stream(secret@, i0)
                + hmac_sha256_of(secret@, spec_kdf_a(secret@, i0) + spec_kdf_seed()));
            assert(bytes@ =~= spec_kdf_stream(secret@, (i0 + 1) as nat));
            assert(a@ == spec_kdf_a(secret@, (i0 + 1) as nat));
        }
    }
    proof {
        assert(i == (required + 31) / 32);
    }
    bytes.truncate(required);
    proof {
        assert(bytes@ =~= spec_kdf_bytes(secret@, required as nat));
    }
    bytes
}

/// The session bundle a peer derives from a raw shared secret: the
/// expansion stream is split at the midpoint, each half into (IV, cipher
/// key, MAC key), and `swapped` selects which half is the local sending
/// direction.
pub open spec fn spec_shared_algorithms(
    secret: Seq<u8>,
    hash: HashAlgorithm,
    cipher: CipherAlgorithm,
    swapped: bool,
) -> SharedView {
    let iv_size = cipher.spec_iv_size();
    let key_size = cipher.spec_key_size();
    let mac_size = hash.spec_key_size();
    let single = iv_size + key_size + mac_size;
    let stream = spec_kdf_bytes(secret, (2 * single) as nat);
    let first = stream.take(single);
    let second = stream.skip(single);
    let mine = if swapped {
        second
    } else {
        first
    };
    let theirs = if swapped {
        first
    } else {
        second
    };
    SharedView {
        encryptor: CtrStateView {
            key: mine.subrange(iv_size, iv_size + key_size),
            iv: mine.take(iv_size),
            offset: 0,
        },
        decryptor: CtrStateView {
            key: theirs.subrange(iv_size, iv_size + key_size),
            iv: theirs.take(iv_size),
            offset: 0,
        },
        signer: mine.skip(iv_size + key_size),
        verifier: theirs.skip(iv_size + key_size),
    }
}

/// Both peers, given the same raw shared secret, derive identical key
/// material, and the `swapped` flag exchanges exactly the two directions:
/// one side's sending keys are the other side's receiving keys, and one
/// side's MAC signing key is the other side's MAC verification key.
pub proof fn lemma_shared_algorithms_complementary(
    secret: Seq<u8>,
    hash: HashAlgorithm,
    cipher: CipherAlgorithm,
)
    ensures
        spec_shared_algorithms(secret, hash, cipher, false).encryptor == spec_shared_algorithms(
            secret,
            hash,
            cipher,
            true,
        ).decryptor,
        spec_shared_algorithms(secret, hash, cipher, false).decryptor == spec_shared_algorithms(
            secret,
            hash,
            cipher,
            true,
        ).encryptor,
        spec_shared_algorithms(secret, hash, cipher, false).signer == spec_shared_algorithms(
            secret,
            hash,
            cipher,
            true,
        ).verifier,
        spec_shared_algorithms(secret, hash, cipher, false).verifier == spec_shared_algorithms(
            secret,
            hash,
            cipher,
            true,
        ).signer,
{
}

/// Relies on ring::agreement::EphemeralPrivateKey::generate and
/// compute_public_key with ECDH_P384 and the system random source: a fresh
/// random keypair and its public bytes, or failure if the random source or
/// the primitive fails.
#[verifier::external_body]
fn ecdh_p384_generate() -> (r: Result<(ring::agreement::EphemeralPrivateKey, Vec<u8>), ()>) {
    let rng = ring::rand::SystemRandom::new();
    let key = match ring::agreement::EphemeralPrivateKey::generate(
        &ring::agreement::ECDH_P384,
        &rng,
    ) {
        Ok(k) => k,
        Err(_) => return Err(()),
    };
    match key.compute_public_key() {
        Ok(public) => Ok((key, public.as_ref().to_vec())),
        Err(_) => Err(()),
    }
}

/// Relies on ring::agreement::agree_ephemeral with ECDH_P384: on success
/// the closure receives the raw shared secret, which for P-384 is the
/// 48-byte x-coordinate; the call fails when the peer's bytes are not a
/// valid public point.
#[verifier::external_body]
fn ecdh_p384_agree(key: ring::agreement::EphemeralPrivateKey, their_pub: &[u8]) -> (r: Result<
    Vec<u8>,
    (),
>)
    ensures
        r is Ok ==> (r->Ok_0)@.len() == 48,
{
    let peer = ring::agreement::UnparsedPublicKey::new(&ring::agreement::ECDH_P384, their_pub);
    ring::agreement::agree_ephemeral(key, &peer, |secret: &[u8]| secret.to_vec()).map_err(|_| ())
}

/// An ephemeral P-384 keypair for one handshake attempt. The private half
/// is opaque and consumed exactly once by `agree_with`; the public half is
/// plain bytes, and is the value of this type's view.
pub struct PrivateKey {
    inner: ring::agreement::EphemeralPrivateKey,
    pub_key: Vec<u8>,
}

impl View for PrivateKey {
    type V = Seq<u8>;

    closed spec fn view(&self) -> Seq<u8> {
        self.pub_key@
    }
}

/// Generates a fresh ephemeral P-384 keypair.
pub fn generate() -> (r: Result<PrivateKey, SecioError>)
    ensures
        r is Err ==> r->Err_0 == SecioError::KeyGenerationFailed,
{
    match ecdh_p384_generate() {
        Ok((inner, pub_key)) => Ok(PrivateKey { inner, pub_key }),
        Err(_) => Err(SecioError::KeyGenerationFailed),
    }
}

impl PrivateKey {
    /// This keypair's public bytes, as sent in the Exchange message.
    pub fn pub_key(&self) -> (r: &[u8])
        ensures
            r@ == self@,
    {
        self.pub_key.as_slice()
    }

    /// Consumes the keypair, agrees with the peer's ephemeral public bytes,
    /// and expands the shared secret into the session bundle. On success the
    /// bundle is exactly the derivation of some raw secret, with both cipher
    /// positions at zero; a rejected peer key is fatal.
    pub fn agree_with(
        self,
        their_pub_key: &[u8],
        hash: HashAlgorithm,
        cipher: CipherAlgorithm,
        swapped: bool,
    ) -> (r: Result<SharedAlgorithms, SecioError>)
        ensures
            r is Ok ==> (r->Ok_0)@.wf(),
            r is Ok ==> exists|secret: Seq<u8>|
                (r->Ok_0)@ == #[trigger] spec_shared_algorithms(secret, hash, cipher, swapped),
            r is Err ==> r->Err_0 == SecioError::KeyAgreementFailed,
    {
        let secret = match ecdh_p384_agree(self.inner, their_pub_key) {
            Ok(s) => s,
            Err(_) => {
                return Err(SecioError::KeyAgreementFailed);
            },
        };
        let iv_size = cipher.iv_size();
        let key_size = cipher.key_size();
        let mac_size = hash.key_size();
        let single = iv_size + key_size + mac_size;
        let required = 2 * single;
        let stream = expand_key(secret.as_slice(), required);
        let s = stream.as_slice();
        let first = vstd::slice::slice_subrange(s, 0, single);
        let second = vstd::slice::slice_subrange(s, single, required);
        let (mine, theirs) = if swapped {
            (second, first)
        } else {
            (first, second)
        };
        let enc_iv = vstd::slice::slice_subrange(mine, 0, iv_size);
        let enc_key = vstd::slice::slice_subrange(mine, iv_size, iv_size + key_size);
        let mac_key = vstd::slice::slice_subrange(mine, iv_size + key_size, single);
        let dec_iv = vstd::slice::slice_subrange(theirs, 0, iv_size);
        let dec_key = vstd::slice::slice_subrange(theirs, iv_size, iv_size + key_size);
        let ver_key = vstd::slice::slice_subrange(theirs, iv_size + key_size, single);
        let algos = SharedAlgorithms {
            encryptor: cipher.encryptor(enc_key, enc_iv),
            decryptor: cipher.decryptor(dec_key, dec_iv),
            signer: hash.signer(mac_key),
            verifier: hash.verifier_for(ver_key),
        };
        proof {
            let spec = spec_shared_algorithms(secret@, hash, cipher, swapped);
            let stream_spec = spec_kdf_bytes(secret@, (2 * (cipher.spec_iv_size()
                + cipher.spec_key_size() + hash.spec_key_size())) as nat);
            let sfirst = stream_spec.take(single as int);
            let ssecond = stream_spec.skip(single as int);
            assert(first@ =~= sfirst);
            assert(second@ =~= ssecond);
            assert(enc_iv@ =~= spec.encryptor.iv);
            assert(enc_key@ =~= spec.encryptor.key);
            assert(mac_key@ =~= spec.signer);
            assert(dec_iv@ =~= spec.decryptor.iv);
            assert(dec_key@ =~= spec.decryptor.key);
            assert(ver_key@ =~= spec.verifier);
            assert(algos@ == spec);
        }
        Ok(algos)
    }
}

} // verus!
