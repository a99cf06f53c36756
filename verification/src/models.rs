//! Data model of the credential core: credentials, users, roles, sessions,
//! and the error taxonomy every operation reports through.

use vstd::prelude::*;

verus! {

/// A username/password pair presented at login. Transient: verified, never stored.
pub struct Credentials {
    pub username: String,
    pub password: String,
}

/// A user record, as the user store holds it.
///
/// `password` carries the self-describing encoded password hash, never a
/// plaintext password. `created_at` is a timestamp in seconds.
#[derive(Debug, PartialEq, Eq)]
pub struct User {
    pub id: i32,
    pub username: String,
    pub password: String,
    pub created_at: i64,
}

impl Clone for User {
    fn clone(&self) -> (r: Self)
        ensures
            r == *self,
    {
        User {
            id: self.id,
            username: self.username.clone(),
            password: self.password.clone(),
            created_at: self.created_at,
        }
    }
}

/// A role code. `Admin` and `Editor` gate privileged operations; `Viewer`
/// and any unrecognized code grant nothing beyond being authenticated.
#[derive(Debug)]
pub enum RoleCode {
    Admin,
    Editor,
    Viewer,
    Custom(String),
}

/// The canonical string form of a role code. Role codes are case-sensitive
/// strings; two codes are the same exactly when these characters are.
pub open spec fn code_chars(c: RoleCode) -> Seq<char> {
    match c {
        RoleCode::Admin => "admin"@,
        RoleCode::Editor => "editor"@,
        RoleCode::Viewer => "viewer"@,
        RoleCode::Custom(s) => s@,
    }
}

/// Whether a role code string grants access to editor-gated operations.
/// Codes are compared case-sensitively; every unrecognized code grants
/// nothing.
pub open spec fn is_privileged_code(code: Seq<char>) -> bool {
    code == "admin"@ || code == "editor"@
}

impl RoleCode {
    /// Whether this code grants access to editor-gated operations.
    pub fn privileged(&self) -> (r: bool)
        ensures
            r == is_privileged_code(code_chars(*self)),
    {
        proof {
            reveal_strlit("admin");
            reveal_strlit("editor");
            reveal_strlit("viewer");
            assert("admin"@.len() == 5 && "editor"@.len() == 6 && "viewer"@.len() == 6);
            assert("editor"@[0] == 'e' && "viewer"@[0] == 'v');
        }
        match self {
            RoleCode::Admin => true,
            RoleCode::Editor => true,
            RoleCode::Viewer => false,
            RoleCode::Custom(s) => {
                crate::util::str_eq(s.as_str(), "admin") || crate::util::str_eq(
                    s.as_str(),
                    "editor",
                )
            },
        }
    }

    /// Parses a role code string; the three fixed codes canonicalize to
    /// their variant, every other string is carried as `Custom`.
    pub fn from_code(s: &str) -> (r: RoleCode)
        ensures
            code_chars(r) == s@,
            r is Admin <==> s@ == "admin"@,
            r is Editor <==> s@ == "editor"@,
            r is Viewer <==> s@ == "viewer"@,
    {
        proof {
            reveal_strlit("admin");
            reveal_strlit("editor");
            reveal_strlit("viewer");
            assert("admin"@.len() == 5 && "editor"@.len() == 6 && "viewer"@.len() == 6);
            assert("editor"@[0] == 'e' && "viewer"@[0] == 'v');
        }
        if crate::util::str_eq(s, "admin") {
            RoleCode::Admin
        } else if crate::util::str_eq(s, "editor") {
            RoleCode::Editor
        } else if crate::util::str_eq(s, "viewer") {
            RoleCode::Viewer
        } else {
            RoleCode::Custom(s.to_owned())
        }
    }

    /// The canonical string of this code.
    pub fn to_code(&self) -> (r: String)
        ensures
            r@ == code_chars(*self),
    {
        match self {
            RoleCode::Admin => "admin".to_owned(),
            RoleCode::Editor => "editor".to_owned(),
            RoleCode::Viewer => "viewer".to_owned(),
            RoleCode::Custom(s) => s.clone(),
        }
    }

    /// Whether two codes name the same role, compared by their strings.
    pub fn code_eq(&self, other: &RoleCode) -> (r: bool)
        ensures
            r == (code_chars(*self) == code_chars(*other)),
    {
        let a = self.to_code();
        let b = other.to_code();
        a == b
    }
}

impl Clone for RoleCode {
    fn clone(&self) -> (r: Self)
        ensures
            r == *self,
    {
        match self {
            RoleCode::Admin => RoleCode::Admin,
            RoleCode::Editor => RoleCode::Editor,
            RoleCode::Viewer => RoleCode::Viewer,
            RoleCode::Custom(s) => RoleCode::Custom(s.clone()),
        }
    }
}

/// A role record of the role store.
#[derive(Debug)]
pub struct Role {
    pub id: i32,
    pub code: RoleCode,
    pub name: String,
}

impl Clone for Role {
    fn clone(&self) -> (r: Self)
        ensures
            r == *self,
    {
        Role { id: self.id, code: self.code.clone(), name: self.name.clone() }
    }
}

/// A session entry as the session store keeps it: who the token belongs to
/// and when the token stops being honoured.
#[derive(Clone, Copy, Debug, PartialEq, Eq, Structural)]
pub struct Session {
    pub user_id: i32,
    pub expires_at: u64,
}

/// Why a request was refused.
#[derive(Clone, Copy, Debug, PartialEq, Eq, Structural)]
pub enum AuthError {
    /// Bad username or password. One value for every cause, so a response
    /// cannot reveal whether the username exists.
    InvalidCredentials,
    /// Missing, malformed, unknown or expired bearer token.
    Unauthenticated,
    /// Authenticated, but no role grants the operation.
    Forbidden,
    /// The user store or the session cache could not be reached.
    UpstreamUnavailable,
}

/// The transport status code each error maps to.
pub open spec fn spec_status_code(e: AuthError) -> u16 {
    match e {
        AuthError::InvalidCredentials => 401u16,
        AuthError::Unauthenticated => 401u16,
        AuthError::Forbidden => 403u16,
        AuthError::UpstreamUnavailable => 500u16,
    }
}

/// The response body each error maps to. Both credential failures and token
/// failures share one body, so responses cannot be told apart by cause.
pub open spec fn spec_error_message(e: AuthError) -> Seq<char> {
    match e {
        AuthError::InvalidCredentials => "Wrong credentials"@,
        AuthError::Unauthenticated => "Wrong credentials"@,
        AuthError::Forbidden => "Forbidden"@,
        AuthError::UpstreamUnavailable => "Error"@,
    }
}

impl AuthError {
    pub fn status_code(&self) -> (code: u16)
        ensures
            code == spec_status_code(*self),
    {
        match self {
            AuthError::InvalidCredentials => 401,
            AuthError::Unauthenticated => 401,
            AuthError::Forbidden => 403,
            AuthError::UpstreamUnavailable => 500,
        }
    }

    pub fn message(&self) -> (m: String)
        ensures
            m@ == spec_error_message(*self),
    {
        match self {
            AuthError::InvalidCredentials => "Wrong credentials".to_owned(),
            AuthError::Unauthenticated => "Wrong credentials".to_owned(),
            AuthError::Forbidden => "Forbidden".to_owned(),
            AuthError::UpstreamUnavailable => "Error".to_owned(),
        }
    }
}

/// Why a stored password hash could not be used.
#[derive(Clone, Copy, Debug, PartialEq, Eq, Structural)]
pub enum HashError {
    /// The stored hash does not parse as a well-formed encoded hash.
    MalformedHash,
    /// The hashing backend failed; nothing was produced.
    HashingFailed,
}

} // verus!
