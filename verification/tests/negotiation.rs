//! Role ordering and algorithm selection.

use secio::cipher::CipherAlgorithm;
use secio::curve::CurveAlgorithm;
use secio::data::Propose;
use secio::hash::HashAlgorithm;
use secio::handshake::{compute_order, list_contains, select, Order};
use secio::AlgorithmCategory;
use secio::SecioError;

fn flip(o: Order) -> Order {
    match o {
        Order::Less => Order::Greater,
        Order::Equal => Order::Equal,
        Order::Greater => Order::Less,
    }
}

#[test]
fn order_complementary_for_synthetic_proposals() {
    let cases: [([u8; 32], [u8; 16], [u8; 32], [u8; 16]); 3] = [
        ([1; 32], [2; 16], [3; 32], [4; 16]),
        ([0xFF; 32], [0; 16], [0; 32], [0xFF; 16]),
        ([7; 32], [7; 16], [7; 32], [8; 16]),
    ];
    for (a_pub, a_nonce, b_pub, b_nonce) in cases.iter() {
        let ab = compute_order(a_pub, a_nonce, b_pub, b_nonce);
        let ba = compute_order(b_pub, b_nonce, a_pub, a_nonce);
        assert_eq!(ba, flip(ab));
        assert_ne!(ab, Order::Equal);
    }
}

#[test]
fn order_of_identical_proposals_is_equal() {
    let p = [9u8; 32];
    let n = [1u8; 16];
    assert_eq!(compute_order(&p, &n, &p, &n), Order::Equal);
}

#[test]
fn list_contains_segments() {
    assert!(list_contains(b"P-384", b"P-384"));
    assert!(list_contains(b"P-256,P-384", b"P-384"));
    assert!(list_contains(b"P-384,P-256", b"P-384"));
    assert!(!list_contains(b"P-256", b"P-384"));
    assert!(!list_contains(b"P-3", b"P-384"));
    assert!(!list_contains(b"P-384X", b"P-384"));
    assert!(!list_contains(b"", b"P-384"));
    assert!(list_contains(b"", b""));
    assert!(list_contains(b"a,,b", b""));
}

fn full_proposal() -> Propose {
    let mut p = Propose::new();
    p.set_exchanges(b"P-384".to_vec());
    p.set_ciphers(b"AES-256".to_vec());
    p.set_hashes(b"SHA256".to_vec());
    p
}

#[test]
fn select_succeeds_on_matching_lists() {
    let p = full_proposal();
    let (_curve, _cipher, _hash) = select(&p).unwrap();
}

#[test]
fn select_succeeds_on_superset_lists() {
    let mut p = Propose::new();
    p.set_exchanges(b"P-256,P-384,X25519".to_vec());
    p.set_ciphers(b"AES-128,AES-256,CHACHA".to_vec());
    p.set_hashes(b"SHA1,SHA256,SHA512".to_vec());
    assert!(select(&p).is_ok());
}

#[test]
fn select_no_common_cipher() {
    let mut p = full_proposal();
    p.set_ciphers(b"CHACHA20".to_vec());
    assert_eq!(
        select(&p).unwrap_err(),
        SecioError::NoCommonAlgorithm(AlgorithmCategory::Cipher)
    );
}

#[test]
fn select_no_common_curve() {
    let mut p = full_proposal();
    p.set_exchanges(b"P-256".to_vec());
    assert_eq!(
        select(&p).unwrap_err(),
        SecioError::NoCommonAlgorithm(AlgorithmCategory::Curve)
    );
}

#[test]
fn select_no_common_hash() {
    let mut p = full_proposal();
    p.set_hashes(b"SHA512".to_vec());
    assert_eq!(
        select(&p).unwrap_err(),
        SecioError::NoCommonAlgorithm(AlgorithmCategory::Hash)
    );
}

#[test]
fn select_missing_lists_fail() {
    let p = Propose::new();
    assert_eq!(
        select(&p).unwrap_err(),
        SecioError::NoCommonAlgorithm(AlgorithmCategory::Curve)
    );
}

#[test]
fn registry_reports_fixed_names_and_sizes() {
    let curves = CurveAlgorithm::all();
    assert_eq!(curves.len(), 1);
    assert_eq!(curves[0].wire_name(), b"P-384".to_vec());
    let ciphers = CipherAlgorithm::all();
    assert_eq!(ciphers.len(), 1);
    assert_eq!(ciphers[0].wire_name(), b"AES-256".to_vec());
    assert_eq!(ciphers[0].key_size(), 32);
    assert_eq!(ciphers[0].iv_size(), 16);
    let hashes = HashAlgorithm::all();
    assert_eq!(hashes.len(), 1);
    assert_eq!(hashes[0].wire_name(), b"SHA256".to_vec());
    assert_eq!(hashes[0].key_size(), 20);
}
