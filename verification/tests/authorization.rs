use cr8s::authn::{identify, login_by_username};
use cr8s::authz::require_editor;
use cr8s::models::{AuthError, Credentials, RoleCode};
use cr8s::session::SessionStore;
use cr8s::store::UserStore;

fn creds(username: &str, password: &str) -> Credentials {
    Credentials { username: String::from(username), password: String::from(password) }
}

#[test]
fn test_login_success() {
    let username = format!("test_user{}", rand::random::<u32>());
    let mut store = UserStore::new();
    let mut sessions = SessionStore::new();
    store
        .create_user(username.clone(), String::from("1234"), vec![], 0)
        .unwrap();

    let response = login_by_username(&store, &creds(&username, "1234"), &mut sessions, 1_000);

    assert!(response.is_ok());
    let token = response.unwrap();
    assert_eq!(token.len(), 128);
}

#[test]
fn test_login_wrong_password() {
    let username = format!("test_user{}", rand::random::<u32>());
    let mut store = UserStore::new();
    let mut sessions = SessionStore::new();
    store
        .create_user(username.clone(), String::from("1234"), vec![], 0)
        .unwrap();

    let response = login_by_username(
        &store,
        &creds(&username, "wrong_password"),
        &mut sessions,
        1_000,
    );

    assert_eq!(response, Err(AuthError::InvalidCredentials));
    assert_eq!(AuthError::InvalidCredentials.status_code(), 401);
}

#[test]
fn test_login_wrong_username() {
    let username = format!("test_user{}", rand::random::<u32>());
    let mut store = UserStore::new();
    let mut sessions = SessionStore::new();
    store
        .create_user(username.clone(), String::from("1234"), vec![], 0)
        .unwrap();

    let response = login_by_username(
        &store,
        &creds("wrong_username", "1234"),
        &mut sessions,
        1_000,
    );

    assert_eq!(response, Err(AuthError::InvalidCredentials));
}

#[test]
fn test_login_failures_indistinguishable() {
    let username = format!("test_user{}", rand::random::<u32>());
    let mut store = UserStore::new();
    let mut sessions = SessionStore::new();
    store
        .create_user(username.clone(), String::from("1234"), vec![], 0)
        .unwrap();

    let wrong_password =
        login_by_username(&store, &creds(&username, "wrong_password"), &mut sessions, 0)
            .unwrap_err();
    let wrong_username =
        login_by_username(&store, &creds("wrong_username", "1234"), &mut sessions, 0).unwrap_err();
    let no_such_user =
        login_by_username(&store, &creds("nobody_at_all", "pw"), &mut sessions, 0).unwrap_err();

    assert_eq!(wrong_password, wrong_username);
    assert_eq!(wrong_username, no_such_user);
    assert_eq!(wrong_password.status_code(), wrong_username.status_code());
    assert_eq!(wrong_password.message(), wrong_username.message());
    assert_eq!(wrong_username.message(), no_such_user.message());
}

#[test]
fn test_me() {
    let mut store = UserStore::new();
    let mut sessions = SessionStore::new();
    let created = store
        .create_user(
            String::from("test_viewer"),
            String::from("1234"),
            vec![RoleCode::Viewer],
            777,
        )
        .unwrap();

    let token = login_by_username(&store, &creds("test_viewer", "1234"), &mut sessions, 10)
        .unwrap();

    let header = format!("Bearer {}", token);
    let me = identify(Some(header.as_str()), &sessions, &store, 11).unwrap();
    assert_eq!(me.id, created.id);
    assert_eq!(me.username, "test_viewer");
    assert_eq!(me.created_at, 777);
}

#[test]
fn test_identify_immediately_after_login() {
    let mut store = UserStore::new();
    let mut sessions = SessionStore::new();
    let created = store
        .create_user(String::from("bob"), String::from("hunter2"), vec![], 0)
        .unwrap();

    let token = login_by_username(&store, &creds("bob", "hunter2"), &mut sessions, 500).unwrap();
    assert_eq!(token.len(), 128);

    let header = format!("Bearer {}", token);
    let identity = identify(Some(header.as_str()), &sessions, &store, 500).unwrap();
    assert_eq!(identity.id, created.id);
}

#[test]
fn test_identify_expired_token() {
    let mut store = UserStore::new();
    let mut sessions = SessionStore::new();
    store
        .create_user(String::from("carol"), String::from("pw"), vec![], 0)
        .unwrap();

    let token = login_by_username(&store, &creds("carol", "pw"), &mut sessions, 0).unwrap();
    let header = format!("Bearer {}", token);

    // Live strictly before the expiry instant, dead from it on.
    assert!(identify(Some(header.as_str()), &sessions, &store, 10_799).is_ok());
    assert_eq!(
        identify(Some(header.as_str()), &sessions, &store, 10_800),
        Err(AuthError::Unauthenticated)
    );
}

#[test]
fn test_identify_never_issued_token() {
    let store = UserStore::new();
    let sessions = SessionStore::new();
    let header = format!("Bearer {}", "A".repeat(128));
    assert_eq!(
        identify(Some(header.as_str()), &sessions, &store, 0),
        Err(AuthError::Unauthenticated)
    );
    assert_eq!(identify(None, &sessions, &store, 0), Err(AuthError::Unauthenticated));
}

#[test]
fn test_identify_deleted_user() {
    let mut store = UserStore::new();
    let mut sessions = SessionStore::new();
    let created = store
        .create_user(String::from("dave"), String::from("pw"), vec![], 0)
        .unwrap();

    let token = login_by_username(&store, &creds("dave", "pw"), &mut sessions, 0).unwrap();
    cr8s::store::delete_user(&mut store, created.id);

    let header = format!("Bearer {}", token);
    assert_eq!(
        identify(Some(header.as_str()), &sessions, &store, 1),
        Err(AuthError::Unauthenticated)
    );
}

#[test]
fn test_editor_scenario() {
    let mut store = UserStore::new();
    let mut sessions = SessionStore::new();
    store
        .create_user(
            String::from("alice"),
            String::from("s3cret"),
            vec![RoleCode::Editor],
            0,
        )
        .unwrap();

    // Login yields a 128-character token.
    let token = login_by_username(&store, &creds("alice", "s3cret"), &mut sessions, 100).unwrap();
    assert_eq!(token.len(), 128);

    // The protected editor operation admits the bearer.
    let header = format!("Bearer {}", token);
    let identity = identify(Some(header.as_str()), &sessions, &store, 101).unwrap();
    let editor = require_editor(&store, identity);
    assert!(editor.is_ok());
    assert_eq!(editor.unwrap().0.username, "alice");

    // The same operation with the token reversed is turned away as 401.
    let tampered: String = token.chars().rev().collect();
    let tampered_header = format!("Bearer {}", tampered);
    let refused = identify(Some(tampered_header.as_str()), &sessions, &store, 101);
    assert_eq!(refused, Err(AuthError::Unauthenticated));
    assert_eq!(AuthError::Unauthenticated.status_code(), 401);
}
