//! A SECIO-style secure-channel library: the two-message negotiation
//! handshake (Propose, Exchange), the key-derivation function that expands an
//! ephemeral Diffie-Hellman secret into per-direction cipher and MAC keys,
//! and the encrypt-then-MAC stream codec used after the handshake.
//!
//! The library is transport-agnostic: every function here maps whole frames
//! (plain byte vectors) to whole frames, so a caller can drive it over any
//! duplex transport that delivers length-prefixed messages.

pub mod aes;
pub mod cipher;
pub mod curve;
pub mod data;
pub mod ecdh;
pub mod handshake;
pub mod hash;
pub mod identity;
pub mod secstream;
pub mod sha2;
pub mod shared;

use vstd::prelude::*;

verus! {

/// Which algorithm category failed during negotiation.
#[derive(Debug, Clone, Copy, PartialEq, Eq, Structural)]
pub enum AlgorithmCategory {
    Curve,
    Cipher,
    Hash,
}

/// Why a handshake attempt or a secure-stream operation failed.
///
/// Every failure is terminal for the connection attempt: nothing here is
/// retried internally, and the caller owns the decision to close the
/// transport or dial again with fresh ephemeral material.
#[derive(Debug, Clone, Copy, PartialEq, Eq, Structural)]
pub enum SecioError {
    /// The peer's public key does not match the identity the caller expected.
    IdentityMismatch,
    /// Both sides produced identical ordering digests: the connection loops
    /// back to this host.
    TalkingToSelf,
    /// The peer advertised no algorithm name in common with the local
    /// registry for the given category.
    NoCommonAlgorithm(AlgorithmCategory),
    /// The ephemeral key-exchange keypair could not be generated.
    KeyGenerationFailed,
    /// The Diffie-Hellman agreement rejected the peer's ephemeral key.
    KeyAgreementFailed,
    /// The peer's Exchange signature did not verify over the transcript.
    SignatureVerificationFailed,
    /// A received frame's MAC did not verify; the frame was not decrypted.
    MacVerificationFailed,
    /// The cipher rejected a frame after its MAC verified.
    DecryptionFailed,
    /// The nonce echoed through the secure channel did not match ours.
    NonceMismatch,
    /// A negotiation message could not be decoded.
    MalformedMessage,
    /// The transport closed before the exchange completed.
    UnexpectedEof,
    /// The underlying transport reported an error.
    UnderlyingIo,
}

} // verus!
