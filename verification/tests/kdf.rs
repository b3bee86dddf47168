//! Key-derivation behavior: output length, determinism, and the split into
//! complementary halves.

use secio::ecdh::expand_key;

#[test]
fn kdf_output_length_is_exact() {
    // required_bytes = 2 * (cipher_iv + cipher_key + mac_key)
    //                = 2 * (16 + 32 + 20) = 136.
    let secret = [0x42u8; 48];
    let out = expand_key(&secret, 136);
    assert_eq!(out.len(), 136);
    // Other lengths, including ones that are not block multiples and zero.
    assert_eq!(expand_key(&secret, 0).len(), 0);
    assert_eq!(expand_key(&secret, 1).len(), 1);
    assert_eq!(expand_key(&secret, 32).len(), 32);
    assert_eq!(expand_key(&secret, 33).len(), 33);
    assert_eq!(expand_key(&secret, 1000).len(), 1000);
}

#[test]
fn kdf_is_deterministic() {
    let secret = [7u8; 48];
    let a = expand_key(&secret, 136);
    let b = expand_key(&secret, 136);
    assert_eq!(a, b);
    // A different secret gives a different stream.
    let c = expand_key(&[8u8; 48], 136);
    assert_ne!(a, c);
}

#[test]
fn kdf_prefixes_agree() {
    // The stream is a function of the secret alone: a shorter request is a
    // prefix of a longer one.
    let secret = [3u8; 48];
    let long = expand_key(&secret, 136);
    let short = expand_key(&secret, 68);
    assert_eq!(&long[..68], &short[..]);
}

#[test]
fn kdf_halves_reproducible_from_same_secret() {
    // Both peers expand the same raw shared secret; one side takes the
    // first half for sending, the other side takes the same first half for
    // receiving. The two independently computed streams agree, so the
    // halves are complementary.
    let secret = [0x5Au8; 48];
    let side_a = expand_key(&secret, 136);
    let side_b = expand_key(&secret, 136);
    let (a_first, a_second) = side_a.split_at(68);
    let (b_first, b_second) = side_b.split_at(68);
    assert_eq!(a_first, b_first);
    assert_eq!(a_second, b_second);
    // Within a half: 16-byte IV, 32-byte cipher key, 20-byte MAC key.
    assert_eq!(a_first.len(), 16 + 32 + 20);
}
