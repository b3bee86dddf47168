//! Full handshakes between two in-process peers, and the ways a handshake
//! must fail.

use secio::data::Exchange;
use secio::handshake::propose;
use secio::identity::{HostId, PeerId};
use secio::SecioError;

fn expect_err<T>(r: Result<T, SecioError>) -> SecioError {
    match r {
        Ok(_) => panic!("expected an error"),
        Err(e) => e,
    }
}

#[test]
fn end_to_end_handshake_and_messages() {
    let a_host = HostId::from_seed(&[1u8; 32]).unwrap();
    let b_host = HostId::from_seed(&[2u8; 32]).unwrap();
    let a_pub = a_host.pub_key().to_vec();
    let b_pub = b_host.pub_key().to_vec();

    let (a1, a_prop) = propose(a_host, PeerId::Unknown).unwrap();
    let (b1, b_prop) = propose(b_host, PeerId::Unknown).unwrap();

    let (a2, a_exch) = a1.on_proposal(b_prop.clone()).unwrap();
    let (b2, b_exch) = b1.on_proposal(a_prop.clone()).unwrap();

    let (a3, a_confirm) = a2.on_exchange(b_exch.clone()).unwrap();
    let (b3, b_confirm) = b2.on_exchange(a_exch.clone()).unwrap();

    // Both sides accept the other's confirmation: identical outcomes.
    let (a_peer, mut a_stream) = a3.on_confirmation(&b_confirm).unwrap();
    let (b_peer, mut b_stream) = b3.on_confirmation(&a_confirm).unwrap();

    // Each side authenticated the other's identity key.
    let expect_b = PeerId::from_pub_key_bytes(&b_pub).unwrap();
    let expect_a = PeerId::from_pub_key_bytes(&a_pub).unwrap();
    assert!(a_peer.matches(&expect_b));
    assert!(b_peer.matches(&expect_a));

    // At least one message in each direction over the resulting sessions.
    let f1 = a_stream.encode(b"hello from a").unwrap();
    assert_eq!(b_stream.decode(&f1).unwrap(), b"hello from a".to_vec());
    let f2 = b_stream.encode(b"hello from b").unwrap();
    assert_eq!(a_stream.decode(&f2).unwrap(), b"hello from b".to_vec());
}

#[test]
fn handshake_with_expected_peer_succeeds() {
    let a_host = HostId::from_seed(&[1u8; 32]).unwrap();
    let b_host = HostId::from_seed(&[2u8; 32]).unwrap();
    let expect_b = PeerId::from_pub_key_bytes(b_host.pub_key()).unwrap();

    let (a1, _a_prop) = propose(a_host, expect_b).unwrap();
    let (_b1, b_prop) = propose(b_host, PeerId::Unknown).unwrap();
    assert!(a1.on_proposal(b_prop).is_ok());
}

#[test]
fn identity_mismatch_detected_before_key_material() {
    let a_host = HostId::from_seed(&[1u8; 32]).unwrap();
    let b_host = HostId::from_seed(&[2u8; 32]).unwrap();
    // The caller expects some other peer entirely.
    let wrong = PeerId::from_pub_key_bytes(&[9u8; 32]).unwrap();

    let (a1, _a_prop) = propose(a_host, wrong).unwrap();
    let (_b1, b_prop) = propose(b_host, PeerId::Unknown).unwrap();
    let err = expect_err(a1.on_proposal(b_prop));
    assert_eq!(err, SecioError::IdentityMismatch);
}

#[test]
fn reflected_proposal_is_talking_to_self() {
    let a_host = HostId::from_seed(&[1u8; 32]).unwrap();
    let (a1, a_prop) = propose(a_host, PeerId::Unknown).unwrap();
    let err = expect_err(a1.on_proposal(a_prop));
    assert_eq!(err, SecioError::TalkingToSelf);
}

#[test]
fn garbage_proposal_is_malformed() {
    let a_host = HostId::from_seed(&[1u8; 32]).unwrap();
    let (a1, _a_prop) = propose(a_host, PeerId::Unknown).unwrap();
    let err = expect_err(a1.on_proposal(vec![0xFF, 0xFF, 0xFF]));
    assert_eq!(err, SecioError::MalformedMessage);
}

#[test]
fn tampered_exchange_signature_rejected() {
    let a_host = HostId::from_seed(&[1u8; 32]).unwrap();
    let b_host = HostId::from_seed(&[2u8; 32]).unwrap();
    let (a1, a_prop) = propose(a_host, PeerId::Unknown).unwrap();
    let (b1, b_prop) = propose(b_host, PeerId::Unknown).unwrap();
    let (a2, _a_exch) = a1.on_proposal(b_prop).unwrap();
    let (_b2, b_exch) = b1.on_proposal(a_prop).unwrap();

    // Flip a bit inside the signature payload (the frame's last byte).
    let mut tampered = b_exch.clone();
    let last = tampered.len() - 1;
    tampered[last] ^= 1;
    let err = expect_err(a2.on_exchange(tampered));
    assert_eq!(err, SecioError::SignatureVerificationFailed);
}

#[test]
fn invalid_ephemeral_key_fails_agreement() {
    let a_host = HostId::from_seed(&[1u8; 32]).unwrap();
    let b_host = HostId::from_seed(&[2u8; 32]).unwrap();
    let (a1, a_prop) = propose(a_host, PeerId::Unknown).unwrap();
    let (_b1, b_prop) = propose(b_host, PeerId::Unknown).unwrap();
    let (a2, _a_exch) = a1.on_proposal(b_prop.clone()).unwrap();

    // A correctly signed exchange whose ephemeral key is not a valid
    // curve point: the signature verifies, the agreement then fails.
    // `from_seed` is deterministic, so this recreates b's identity.
    let b_again = HostId::from_seed(&[2u8; 32]).unwrap();
    let bad_epub = vec![0u8; 97];
    let mut corpus = b_prop.clone();
    corpus.extend_from_slice(&a_prop);
    corpus.extend_from_slice(&bad_epub);
    let sig = b_again.sign(&corpus);
    let mut forged = Exchange::new();
    forged.set_epubkey(bad_epub);
    forged.set_signature(sig);
    let err = expect_err(a2.on_exchange(forged.write_to_bytes()));
    assert_eq!(err, SecioError::KeyAgreementFailed);
}

#[test]
fn corrupted_nonce_echo_is_nonce_mismatch() {
    let a_host = HostId::from_seed(&[1u8; 32]).unwrap();
    let b_host = HostId::from_seed(&[2u8; 32]).unwrap();
    let (a1, a_prop) = propose(a_host, PeerId::Unknown).unwrap();
    let (b1, b_prop) = propose(b_host, PeerId::Unknown).unwrap();
    let (a2, a_exch) = a1.on_proposal(b_prop.clone()).unwrap();
    let (b2, b_exch) = b1.on_proposal(a_prop.clone()).unwrap();
    let (a3, a_confirm) = a2.on_exchange(b_exch.clone()).unwrap();
    let (b3, _b_confirm) = b2.on_exchange(a_exch.clone()).unwrap();

    // Let b finish, then play the man in the middle towards a: substitute
    // the confirmation with a validly keyed frame that carries the wrong
    // nonce. The MAC verifies, so the failure is exactly the nonce check.
    let (_b_peer, mut b_stream) = b3.on_confirmation(&a_confirm).unwrap();
    let substituted = b_stream.encode(&[0u8; 16]).unwrap();
    let err = expect_err(a3.on_confirmation(&substituted));
    assert_eq!(err, SecioError::NonceMismatch);
}

#[test]
fn corrupted_confirmation_frame_fails_mac() {
    let a_host = HostId::from_seed(&[1u8; 32]).unwrap();
    let b_host = HostId::from_seed(&[2u8; 32]).unwrap();
    let (a1, a_prop) = propose(a_host, PeerId::Unknown).unwrap();
    let (b1, b_prop) = propose(b_host, PeerId::Unknown).unwrap();
    let (a2, a_exch) = a1.on_proposal(b_prop.clone()).unwrap();
    let (b2, b_exch) = b1.on_proposal(a_prop.clone()).unwrap();
    let (a3, _a_confirm) = a2.on_exchange(b_exch.clone()).unwrap();
    let (_b3, b_confirm) = b2.on_exchange(a_exch.clone()).unwrap();

    let mut corrupted = b_confirm.clone();
    corrupted[0] ^= 0x80;
    let err = expect_err(a3.on_confirmation(&corrupted));
    assert_eq!(err, SecioError::MacVerificationFailed);
}

#[test]
fn identity_from_bad_seed_fails() {
    assert_eq!(
        expect_err(HostId::from_seed(&[1u8; 31])),
        SecioError::KeyGenerationFailed
    );
}

#[test]
fn peer_id_matching() {
    let k1 = PeerId::from_pub_key_bytes(&[1u8; 32]).unwrap();
    let k1b = PeerId::from_pub_key_bytes(&[1u8; 32]).unwrap();
    let k2 = PeerId::from_pub_key_bytes(&[2u8; 32]).unwrap();
    assert!(k1.matches(&k1b));
    assert!(!k1.matches(&k2));
    assert!(!k1.matches(&PeerId::Unknown));
    assert!(!PeerId::Unknown.matches(&k1));
    assert!(PeerId::Unknown.is_unknown());
    assert!(!k1.is_unknown());
    assert_eq!(
        PeerId::from_pub_key_bytes(&[1u8; 33]).unwrap_err(),
        SecioError::MalformedMessage
    );
}
