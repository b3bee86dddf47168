//! Secure stream codec behavior: round trips across several frames, MAC
//! tampering, and closed-stream failures.

use secio::aes::{Aes256Decryptor, Aes256Encryptor};
use secio::secstream::SecStream;
use secio::sha2::{Sha2256Signer, Sha2256Verifier};
use secio::shared::SharedAlgorithms;
use secio::SecioError;

/// Two sessions keyed so that whatever `a` sends, `b` can receive, and the
/// other way round.
fn paired_sessions() -> (SecStream, SecStream) {
    let a_key = [1u8; 32];
    let a_iv = [2u8; 16];
    let a_mac = [3u8; 20];
    let b_key = [4u8; 32];
    let b_iv = [5u8; 16];
    let b_mac = [6u8; 20];
    let a = SharedAlgorithms {
        encryptor: Aes256Encryptor::new(&a_key, &a_iv),
        decryptor: Aes256Decryptor::new(&b_key, &b_iv),
        signer: Sha2256Signer::new(&a_mac),
        verifier: Sha2256Verifier::new(&b_mac),
    };
    let b = SharedAlgorithms {
        encryptor: Aes256Encryptor::new(&b_key, &b_iv),
        decryptor: Aes256Decryptor::new(&a_key, &a_iv),
        signer: Sha2256Signer::new(&b_mac),
        verifier: Sha2256Verifier::new(&a_mac),
    };
    (SecStream::new(a), SecStream::new(b))
}

#[test]
fn roundtrip_three_sequential_messages() {
    let (mut a, mut b) = paired_sessions();
    let messages: [&[u8]; 3] = [b"first message", b"x", b"the third message is longer"];
    for m in messages.iter() {
        let frame = a.encode(m).unwrap();
        assert_eq!(frame.len(), m.len() + 32);
        let plain = b.decode(&frame).unwrap();
        assert_eq!(&plain[..], *m);
    }
}

#[test]
fn roundtrip_both_directions() {
    let (mut a, mut b) = paired_sessions();
    let f1 = a.encode(b"from a").unwrap();
    assert_eq!(b.decode(&f1).unwrap(), b"from a".to_vec());
    let f2 = b.encode(b"from b").unwrap();
    assert_eq!(a.decode(&f2).unwrap(), b"from b".to_vec());
}

#[test]
fn ciphertext_differs_from_plaintext() {
    let (mut a, _b) = paired_sessions();
    let frame = a.encode(b"some plaintext").unwrap();
    assert_ne!(&frame[..b"some plaintext".len()], b"some plaintext".as_slice());
}

#[test]
fn tampering_any_bit_fails_mac() {
    let (mut a, mut b) = paired_sessions();
    let frame = a.encode(b"abc").unwrap();
    assert_eq!(frame.len(), 35);
    // Flip every bit of the frame in turn: every ciphertext bit and every
    // MAC bit. Each altered frame must be rejected without yielding
    // plaintext, and rejection must not disturb the receiver.
    for byte in 0..frame.len() {
        for bit in 0..8 {
            let mut tampered = frame.clone();
            tampered[byte] ^= 1u8 << bit;
            let err = b.decode(&tampered).unwrap_err();
            assert_eq!(err, SecioError::MacVerificationFailed);
        }
    }
    // The untouched frame still decodes, so the failed attempts left the
    // cipher state alone.
    assert_eq!(b.decode(&frame).unwrap(), b"abc".to_vec());
}

#[test]
fn short_frame_is_malformed() {
    let (_a, mut b) = paired_sessions();
    let err = b.decode(&[0u8; 31]).unwrap_err();
    assert_eq!(err, SecioError::MalformedMessage);
}

#[test]
fn closed_stream_fails() {
    let (mut a, _b) = paired_sessions();
    let frame = a.encode(b"last").unwrap();
    a.close();
    assert_eq!(a.encode(b"more").unwrap_err(), SecioError::UnexpectedEof);
    assert_eq!(a.decode(&frame).unwrap_err(), SecioError::UnexpectedEof);
}

#[test]
fn buffered_reading() {
    let (mut a, mut b) = paired_sessions();
    let frame = a.encode(b"buffered payload").unwrap();
    b.feed_frame(&frame).unwrap();
    assert_eq!(b.buffered_len(), 16);
    let part1 = b.read_buffered(8);
    assert_eq!(&part1[..], b"buffered");
    let part2 = b.read_buffered(100);
    assert_eq!(&part2[..], b" payload");
    assert_eq!(b.buffered_len(), 0);
    assert_eq!(b.read_buffered(4), Vec::<u8>::new());
}
