use std::collections::HashSet;

use cr8s::session::{mint_token, SessionStore};
use cr8s::SESSION_ID_LENGTH;

#[test]
fn test_mint_length_and_alphabet() {
    let token = mint_token();
    assert_eq!(token.len(), SESSION_ID_LENGTH);
    assert!(token.chars().all(|c| c.is_ascii_alphanumeric()));
}

#[test]
fn test_mint_distinct() {
    let mut seen: HashSet<String> = HashSet::new();
    for _ in 0..10_000 {
        let token = mint_token();
        assert_eq!(token.len(), SESSION_ID_LENGTH);
        assert!(token.chars().all(|c| c.is_ascii_alphanumeric()));
        assert!(seen.insert(token));
    }
    assert_eq!(seen.len(), 10_000);
}

#[test]
fn test_put_resolve() {
    let mut sessions = SessionStore::new();
    sessions.put(String::from("tok"), 7, 100, 50);
    assert_eq!(sessions.resolve("tok", 100), Some(7));
    assert_eq!(sessions.resolve("tok", 149), Some(7));
    assert_eq!(sessions.resolve("tok", 150), None);
    assert_eq!(sessions.resolve("tok", 151), None);
}

#[test]
fn test_resolve_never_issued() {
    let sessions = SessionStore::new();
    assert_eq!(sessions.resolve("never", 0), None);
}

#[test]
fn test_evict_expired() {
    let mut sessions = SessionStore::new();
    sessions.put(String::from("old"), 1, 0, 10);
    sessions.put(String::from("live"), 2, 0, 100);
    sessions.evict_expired(10);
    assert_eq!(sessions.resolve("old", 10), None);
    assert_eq!(sessions.resolve("live", 10), Some(2));
    assert_eq!(sessions.resolve("live", 99), Some(2));
    assert_eq!(sessions.resolve("live", 100), None);
}

#[test]
fn test_put_replaces_entry() {
    let mut sessions = SessionStore::new();
    sessions.put(String::from("tok"), 7, 0, 100);
    sessions.put(String::from("other"), 8, 0, 100);
    sessions.put(String::from("tok"), 9, 0, 100);
    assert_eq!(sessions.resolve("tok", 50), Some(9));
    assert_eq!(sessions.resolve("other", 50), Some(8));
}
