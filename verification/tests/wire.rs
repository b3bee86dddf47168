//! Wire-format behavior: exact encodings, round trips, malformed inputs.

use secio::data::{Exchange, Propose};
use secio::SecioError;

#[test]
fn propose_single_field_exact_bytes() {
    let mut p = Propose::new();
    p.set_rand(vec![1, 2, 3]);
    assert_eq!(p.write_to_bytes(), vec![10, 3, 1, 2, 3]);
    assert_eq!(p.compute_size(), 5);
}

#[test]
fn propose_all_fields_exact_bytes() {
    let mut p = Propose::new();
    p.set_rand(vec![0xAA]);
    p.set_pubkey(vec![0xBB, 0xCC]);
    p.set_exchanges(b"P-384".to_vec());
    p.set_ciphers(b"AES-256".to_vec());
    p.set_hashes(b"SHA256".to_vec());
    let mut expected = vec![10, 1, 0xAA, 18, 2, 0xBB, 0xCC];
    expected.extend_from_slice(&[26, 5]);
    expected.extend_from_slice(b"P-384");
    expected.extend_from_slice(&[34, 7]);
    expected.extend_from_slice(b"AES-256");
    expected.extend_from_slice(&[42, 6]);
    expected.extend_from_slice(b"SHA256");
    assert_eq!(p.write_to_bytes(), expected);
}

#[test]
fn varint_two_byte_length() {
    // A 300-byte field forces a two-byte varint length: 300 = 0xAC 0x02.
    let mut p = Propose::new();
    p.set_pubkey(vec![7; 300]);
    let bytes = p.write_to_bytes();
    assert_eq!(bytes[0], 18);
    assert_eq!(bytes[1], 0xAC);
    assert_eq!(bytes[2], 0x02);
    assert_eq!(bytes.len(), 3 + 300);
    let back = Propose::parse_from_bytes(&bytes).unwrap();
    assert_eq!(back.get_pubkey(), &[7u8; 300][..]);
}

#[test]
fn propose_roundtrip_all_fields() {
    let mut p = Propose::new();
    p.set_rand(vec![9; 16]);
    p.set_pubkey(vec![8; 32]);
    p.set_exchanges(b"P-384".to_vec());
    p.set_ciphers(b"AES-256".to_vec());
    p.set_hashes(b"SHA256".to_vec());
    let bytes = p.write_to_bytes();
    let q = Propose::parse_from_bytes(&bytes).unwrap();
    assert_eq!(q.get_rand(), p.get_rand());
    assert_eq!(q.get_pubkey(), p.get_pubkey());
    assert_eq!(q.get_exchanges(), p.get_exchanges());
    assert_eq!(q.get_ciphers(), p.get_ciphers());
    assert_eq!(q.get_hashes(), p.get_hashes());
}

#[test]
fn propose_roundtrip_absent_fields() {
    let mut p = Propose::new();
    p.set_exchanges(b"P-384".to_vec());
    let bytes = p.write_to_bytes();
    let q = Propose::parse_from_bytes(&bytes).unwrap();
    assert!(!q.has_rand());
    assert!(!q.has_pubkey());
    assert!(q.has_exchanges());
    assert!(!q.has_ciphers());
    assert!(!q.has_hashes());
    assert_eq!(q.get_exchanges(), b"P-384");
}

#[test]
fn exchange_roundtrip_exact_bytes() {
    let mut e = Exchange::new();
    e.set_epubkey(vec![5, 5, 5, 5]);
    e.set_signature(vec![6, 6]);
    let bytes = e.write_to_bytes();
    assert_eq!(bytes, vec![10, 4, 5, 5, 5, 5, 18, 2, 6, 6]);
    assert_eq!(e.compute_size(), 10);
    let back = Exchange::parse_from_bytes(&bytes).unwrap();
    assert_eq!(back.get_epubkey(), &[5, 5, 5, 5][..]);
    assert_eq!(back.get_signature(), &[6, 6][..]);
}

#[test]
fn parse_empty_is_empty_message() {
    let p = Propose::parse_from_bytes(&[]).unwrap();
    assert!(!p.has_rand());
    assert_eq!(p.get_rand(), &[] as &[u8]);
}

#[test]
fn parse_truncated_record_fails() {
    assert_eq!(
        Propose::parse_from_bytes(&[10]).unwrap_err(),
        SecioError::MalformedMessage
    );
    assert_eq!(
        Propose::parse_from_bytes(&[10, 3, 1]).unwrap_err(),
        SecioError::MalformedMessage
    );
}

#[test]
fn parse_wrong_wire_type_fails() {
    // Tag 8 is field 1 with the varint wire type; only length-delimited
    // records belong to this schema.
    assert_eq!(
        Propose::parse_from_bytes(&[8, 0]).unwrap_err(),
        SecioError::MalformedMessage
    );
}

#[test]
fn parse_unknown_field_fails() {
    // Tag 50 would be field 6.
    assert_eq!(
        Propose::parse_from_bytes(&[50, 0]).unwrap_err(),
        SecioError::MalformedMessage
    );
    // Tag 26 is field 3 of Exchange, which has only fields 1 and 2.
    assert_eq!(
        Exchange::parse_from_bytes(&[26, 0]).unwrap_err(),
        SecioError::MalformedMessage
    );
}

#[test]
fn parse_last_record_wins() {
    let p = Propose::parse_from_bytes(&[10, 1, 1, 10, 1, 2]).unwrap();
    assert_eq!(p.get_rand(), &[2][..]);
}

#[test]
fn accessor_behavior() {
    let mut p = Propose::new();
    assert!(!p.has_rand());
    p.set_rand(vec![1, 2]);
    assert!(p.has_rand());
    assert_eq!(p.get_rand(), &[1, 2][..]);
    let taken = p.take_rand();
    assert_eq!(taken, vec![1, 2]);
    assert!(!p.has_rand());
    p.set_rand(vec![3]);
    p.clear_rand();
    assert!(!p.has_rand());
    assert_eq!(p.get_rand(), &[] as &[u8]);
    // mut_rand on an unset field initializes it empty.
    p.mut_rand().push(7);
    assert!(p.has_rand());
    assert_eq!(p.get_rand(), &[7][..]);

    let mut e = Exchange::new();
    assert!(!e.has_epubkey());
    e.set_epubkey(vec![4]);
    e.mut_epubkey().push(5);
    assert_eq!(e.get_epubkey(), &[4, 5][..]);
    assert_eq!(e.take_epubkey(), vec![4, 5]);
    assert!(!e.has_epubkey());
    e.set_signature(vec![9]);
    e.clear_signature();
    assert!(!e.has_signature());
    assert_eq!(e.get_signature(), &[] as &[u8]);
}
