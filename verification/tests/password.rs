use cr8s::models::HashError;
use cr8s::password::{hash_password, hash_then_verify, verify_password};

#[test]
fn test_hash_verify_roundtrip() {
    let hash = hash_password(String::from("s3cret")).unwrap();
    assert_eq!(verify_password("s3cret", hash.as_str()), Ok(true));
    assert_eq!(verify_password("wrong", hash.as_str()), Ok(false));
}

#[test]
fn test_hash_then_verify_law() {
    assert_eq!(hash_then_verify(String::from("correct horse battery staple")), Ok(true));
}

#[test]
fn test_hash_salt_randomized() {
    let h1 = hash_password(String::from("same password")).unwrap();
    let h2 = hash_password(String::from("same password")).unwrap();
    assert_ne!(h1, h2);
    assert_eq!(verify_password("same password", h1.as_str()), Ok(true));
    assert_eq!(verify_password("same password", h2.as_str()), Ok(true));
}

#[test]
fn test_verify_malformed_hash() {
    assert_eq!(
        verify_password("anything", "not an encoded hash"),
        Err(HashError::MalformedHash)
    );
    assert_eq!(verify_password("anything", ""), Err(HashError::MalformedHash));
}

#[test]
fn test_verify_empty_password() {
    let hash = hash_password(String::new()).unwrap();
    assert_eq!(verify_password("", hash.as_str()), Ok(true));
    assert_eq!(verify_password("x", hash.as_str()), Ok(false));
}
