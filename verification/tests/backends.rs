use ashdaemon::demo::demo_hash_hex;
use ashdaemon::session::{external_response, native_response};
use sha2::Digest;

fn reference_demo_digest(pre: &[u8]) -> Vec<u8> {
    let inner = sha2::Sha256::digest(pre);
    let mut buf = inner.to_vec();
    buf.extend_from_slice(pre);
    hex::encode(sha2::Sha512::digest(&buf)).into_bytes()
}

#[test]
fn demo_digest_known_answer() {
    assert_eq!(
        demo_hash_hex(b"hello"),
        b"71da2766f657eb7e82f387dac9f84cded0c4aa1e40a3a9ddb680a4df70894bab\
f45454f09582913b3e49a53f9363d954d8b6e578862b6b35805a2adafb0b361b"
            .to_vec()
    );
}

#[test]
fn demo_digest_matches_the_hash_chain() {
    for pre in [b"hello".as_slice(), b"".as_slice(), b"a|b\x00c".as_slice()] {
        assert_eq!(demo_hash_hex(pre), reference_demo_digest(pre));
    }
}

#[test]
fn demo_digest_is_pure_and_128_hex_chars() {
    let first = demo_hash_hex(b"preimage");
    let second = demo_hash_hex(b"preimage");
    assert_eq!(first, second);
    assert_eq!(first.len(), 128);
    assert!(first.iter().all(|b| b.is_ascii_hexdigit()));
    assert!(first.iter().all(|b| !b.is_ascii_uppercase()));
    assert_eq!(demo_hash_hex(b"").len(), 128);
}

#[test]
fn native_response_hex_encodes_the_digest() {
    assert_eq!(native_response(Some(vec![0xde, 0xad, 0x01, 0x0f])), b"dead010f".to_vec());
    assert_eq!(native_response(Some(vec![])), b"".to_vec());
}

#[test]
fn native_response_failure_is_the_sentinel() {
    assert_eq!(native_response(None), b"err".to_vec());
}

#[test]
fn external_response_trims_the_output() {
    assert_eq!(external_response(Some(b"  abcdef\n".to_vec())), b"abcdef".to_vec());
    assert_eq!(external_response(Some(b"abc".to_vec())), b"abc".to_vec());
}

#[test]
fn external_response_failure_is_the_sentinel() {
    assert_eq!(external_response(None), b"err".to_vec());
}
