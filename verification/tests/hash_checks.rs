use minipot::hash::{digest_accepted, sha256_hex, verify_sha256};

const ABC_SHA256: &str = "ba7816bf8f01cfea414140de5dae2223b00361a396177a9cb410ff61f20015ad";
const EMPTY_SHA256: &str = "e3b0c44298fc1c149afbf4c8996fb92427ae41e4649b934ca495991b7852b855";

#[test]
fn sha256_hex_is_lowercase_digest() {
    assert_eq!(sha256_hex(b"abc"), ABC_SHA256);
    assert_eq!(sha256_hex(b""), EMPTY_SHA256);
    assert_eq!(sha256_hex(b"a longer input than one block of sixty-four bytes, to be sure of it").len(), 64);
}

#[test]
fn verify_accepts_matching_or_absent_digest() {
    assert_eq!(verify_sha256(b"abc", &None).ok(), Some(ABC_SHA256.to_string()));
    assert_eq!(
        verify_sha256(b"abc", &Some(ABC_SHA256.to_string())).ok(),
        Some(ABC_SHA256.to_string())
    );
}

#[test]
fn verify_rejects_other_digest() {
    let err = verify_sha256(b"abd", &Some(ABC_SHA256.to_string())).err().unwrap();
    assert_eq!(err.expected, ABC_SHA256);
    assert_ne!(err.actual, ABC_SHA256);
    assert_eq!(err.actual.len(), 64);
}

#[test]
fn digest_accepted_cases() {
    assert!(digest_accepted(&None, &"x".to_string()));
    assert!(digest_accepted(&Some("x".to_string()), &"x".to_string()));
    assert!(!digest_accepted(&Some("x".to_string()), &"y".to_string()));
}
