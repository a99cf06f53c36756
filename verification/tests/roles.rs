use cr8s::authz::{authorize, authorize_editor, require_editor, AccessTier};
use cr8s::models::{AuthError, RoleCode, User};
use cr8s::store::{CreateUserError, UserStore};

fn user(id: i32, name: &str) -> User {
    User {
        id,
        username: String::from(name),
        password: String::new(),
        created_at: 0,
    }
}

#[test]
fn test_viewer_forbidden_editor_and_admin_granted() {
    let mut store = UserStore::new();
    let viewer = store
        .create_user(String::from("v"), String::from("pw"), vec![RoleCode::Viewer], 0)
        .unwrap();
    let editor = store
        .create_user(String::from("e"), String::from("pw"), vec![RoleCode::Editor], 0)
        .unwrap();
    let admin = store
        .create_user(String::from("a"), String::from("pw"), vec![RoleCode::Admin], 0)
        .unwrap();

    assert_eq!(
        require_editor(&store, viewer).unwrap_err(),
        AuthError::Forbidden
    );
    assert!(require_editor(&store, editor).is_ok());
    assert!(require_editor(&store, admin).is_ok());
}

#[test]
fn test_unknown_role_code_unprivileged() {
    let mut store = UserStore::new();
    let odd = store
        .create_user(
            String::from("odd"),
            String::from("pw"),
            vec![RoleCode::Custom(String::from("auditor")), RoleCode::Viewer],
            0,
        )
        .unwrap();
    assert_eq!(require_editor(&store, odd).unwrap_err(), AuthError::Forbidden);
}

#[test]
fn test_no_roles_forbidden() {
    let mut store = UserStore::new();
    let nobody = store
        .create_user(String::from("n"), String::from("pw"), vec![], 0)
        .unwrap();
    assert_eq!(require_editor(&store, nobody).unwrap_err(), AuthError::Forbidden);
}

#[test]
fn test_authorize_tiers() {
    let mut roles = Vec::new();
    let u = user(1, "u");
    let granted = authorize(u, &roles, AccessTier::Authenticated);
    assert!(granted.is_ok());

    let u = user(1, "u");
    assert_eq!(
        authorize(u, &roles, AccessTier::Editor).unwrap_err(),
        AuthError::Forbidden
    );

    roles.push(cr8s::models::Role {
        id: 1,
        code: RoleCode::Admin,
        name: String::from("admin"),
    });
    let u = user(1, "u");
    assert!(authorize(u, &roles, AccessTier::Editor).is_ok());
}

#[test]
fn test_authorize_editor_direct() {
    let roles = vec![cr8s::models::Role {
        id: 5,
        code: RoleCode::Custom(String::from("editor")),
        name: String::from("editor"),
    }];
    // A custom code spelling "editor" is the editor code: codes are strings.
    assert!(authorize_editor(user(9, "x"), &roles).is_ok());

    let roles = vec![cr8s::models::Role {
        id: 5,
        code: RoleCode::Custom(String::from("Editor")),
        name: String::from("Editor"),
    }];
    // Codes are case-sensitive.
    assert_eq!(
        authorize_editor(user(9, "x"), &roles).unwrap_err(),
        AuthError::Forbidden
    );
}

#[test]
fn test_role_code_parsing() {
    assert!(matches!(RoleCode::from_code("admin"), RoleCode::Admin));
    assert!(matches!(RoleCode::from_code("editor"), RoleCode::Editor));
    assert!(matches!(RoleCode::from_code("viewer"), RoleCode::Viewer));
    assert!(matches!(RoleCode::from_code("ops"), RoleCode::Custom(_)));
    assert_eq!(RoleCode::from_code("ops").to_code(), "ops");
    assert!(RoleCode::Admin.privileged());
    assert!(RoleCode::Editor.privileged());
    assert!(!RoleCode::Viewer.privileged());
    assert!(!RoleCode::from_code("Admin").privileged());
}

#[test]
fn test_role_autocreated_once() {
    let mut store = UserStore::new();
    let first = store
        .create_user(
            String::from("one"),
            String::from("pw"),
            vec![RoleCode::Custom(String::from("ops"))],
            0,
        )
        .unwrap();
    let second = store
        .create_user(
            String::from("two"),
            String::from("pw"),
            vec![RoleCode::Custom(String::from("ops"))],
            0,
        )
        .unwrap();

    let roles_first = store.find_roles_of(first.id);
    let roles_second = store.find_roles_of(second.id);
    assert_eq!(roles_first.len(), 1);
    assert_eq!(roles_second.len(), 1);
    assert_eq!(roles_first[0].id, roles_second[0].id);
    assert_eq!(roles_first[0].code.to_code(), "ops");
    assert_eq!(roles_first[0].name, "ops");
}

#[test]
fn test_create_user_duplicate_username() {
    let mut store = UserStore::new();
    store
        .create_user(String::from("dup"), String::from("pw"), vec![], 0)
        .unwrap();
    let again = store.create_user(String::from("dup"), String::from("other"), vec![], 0);
    assert_eq!(again.unwrap_err(), CreateUserError::UsernameTaken);
}

#[test]
fn test_delete_user_removes_record_and_roles() {
    let mut store = UserStore::new();
    let made = store
        .create_user(
            String::from("gone"),
            String::from("pw"),
            vec![RoleCode::Editor],
            0,
        )
        .unwrap();
    assert!(store.find_by_username("gone").is_some());

    cr8s::store::delete_user(&mut store, made.id);

    assert!(store.find_by_username("gone").is_none());
    assert!(store.find(made.id).is_none());
    assert_eq!(store.find_roles_of(made.id).len(), 0);
}

#[test]
fn test_users_with_roles() {
    let mut store = UserStore::new();
    let a = store
        .create_user(String::from("a"), String::from("pw"), vec![RoleCode::Admin], 0)
        .unwrap();
    let b = store
        .create_user(String::from("b"), String::from("pw"), vec![], 0)
        .unwrap();

    let listed = store.users_with_roles();
    assert_eq!(listed.len(), 2);
    assert_eq!(listed[0].0.id, a.id);
    assert_eq!(listed[0].1.len(), 1);
    assert_eq!(listed[0].1[0].code.to_code(), "admin");
    assert_eq!(listed[1].0.id, b.id);
    assert!(listed[1].1.is_empty());
}

#[test]
fn test_error_statuses_and_messages() {
    assert_eq!(AuthError::InvalidCredentials.status_code(), 401);
    assert_eq!(AuthError::Unauthenticated.status_code(), 401);
    assert_eq!(AuthError::Forbidden.status_code(), 403);
    assert_eq!(AuthError::UpstreamUnavailable.status_code(), 500);
    assert_eq!(AuthError::InvalidCredentials.message(), "Wrong credentials");
    assert_eq!(AuthError::Unauthenticated.message(), "Wrong credentials");
    assert_eq!(AuthError::Forbidden.message(), "Forbidden");
    assert_eq!(AuthError::UpstreamUnavailable.message(), "Error");
}
