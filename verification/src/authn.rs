//! The authenticator: credential checking with session issuance on login,
//! and per-request identity resolution from a bearer token.
//!
//! Both halves are state-free per call: the user record comes from the user
//! store, the session lives in the session store, and the instant `now` is
//! handed in by the caller.

use vstd::prelude::*;

use crate::bearer::{parse_bearer, spec_bearer_token};
use crate::models::{AuthError, Credentials, Session, User};
use crate::password::{password_matches, phc_wellformed, verify_password};
use crate::session::{mint_token, spec_resolve, token_wellformed, SessionStore};
use crate::store::{contains_user, has_user_id, has_username, UserStore};
use crate::SESSION_LIFE_TIME;

verus! {

/// The session a login filed at instant `now` files for this user.
pub open spec fn session_for(user_id: i32, now: u64) -> Session {
    Session { user_id, expires_at: (now + SESSION_LIFE_TIME) as u64 }
}

/// Whether these credentials are the right ones for this user record: the
/// stored hash is well-formed and the password verifies against it.
pub open spec fn credentials_match(user: User, c: Credentials) -> bool {
    phc_wellformed(user.password@) && password_matches(c.password@, user.password@)
}

/// Whether some record carries these credentials' username together with a
/// well-formed hash their password verifies against.
pub open spec fn credentials_valid(users: Seq<User>, c: Credentials) -> bool {
    exists|i: int|
        0 <= i < users.len() && (#[trigger] users[i]).username@ == c.username@
            && credentials_match(users[i], c)
}

/// Verifies the credentials against the user record and, exactly on
/// success, mints a fresh session token for the caller to file. Every
/// failure — wrong password, malformed stored hash — is the one
/// `InvalidCredentials` value.
pub fn authorize_user(user: &User, credentials: &Credentials) -> (r: Result<String, AuthError>)
    ensures
        r is Ok <==> credentials_match(*user, *credentials),
        r is Ok ==> token_wellformed(r->Ok_0@),
        r is Err ==> r->Err_0 == AuthError::InvalidCredentials,
{
    match verify_password(credentials.password.as_str(), user.password.as_str()) {
        Ok(true) => Ok(mint_token()),
        _ => Err(AuthError::InvalidCredentials),
    }
}

/// Logs in against an already looked-up user record: verifies the
/// credentials, mints a token and files it for `SESSION_LIFE_TIME` seconds.
///
/// A missing record, a wrong password and a malformed stored hash all yield
/// the same `InvalidCredentials` value, and then the session store is left
/// exactly as it was: no half-written session outlives a failed login.
pub fn login(
    user: Option<&User>,
    credentials: &Credentials,
    sessions: &mut SessionStore,
    now: u64,
) -> (r: Result<String, AuthError>)
    requires
        old(sessions).wf(),
        now + SESSION_LIFE_TIME <= u64::MAX,
    ensures
        final(sessions).wf(),
        r is Ok <==> (user is Some && credentials_match(*user->0, *credentials)),
        r is Err ==> r->Err_0 == AuthError::InvalidCredentials && final(sessions)@ == old(
            sessions,
        )@,
        r is Ok ==> token_wellformed(r->Ok_0@) && final(sessions)@ == old(sessions)@.insert(
            r->Ok_0@,
            session_for(user->0.id, now),
        ),
{
    match user {
        Some(u) => {
            match authorize_user(u, credentials) {
                Ok(token) => {
                    let handed_out = token.clone();
                    sessions.put(token, u.id, now, SESSION_LIFE_TIME);
                    Ok(handed_out)
                },
                Err(e) => Err(e),
            }
        },
        None => Err(AuthError::InvalidCredentials),
    }
}

/// Logs in by username: looks the record up in the user store and proceeds
/// as `login` does. Succeeds exactly when the store holds a record with the
/// credentials' username whose hash their password verifies against; a
/// username the store does not know and a wrong password yield the same
/// `InvalidCredentials` value.
pub fn login_by_username(
    store: &UserStore,
    credentials: &Credentials,
    sessions: &mut SessionStore,
    now: u64,
) -> (r: Result<String, AuthError>)
    requires
        store.wf(),
        old(sessions).wf(),
        now + SESSION_LIFE_TIME <= u64::MAX,
    ensures
        final(sessions).wf(),
        r is Ok <==> credentials_valid(store.users(), *credentials),
        r is Err ==> r->Err_0 == AuthError::InvalidCredentials && final(sessions)@ == old(
            sessions,
        )@,
        r is Ok ==> token_wellformed(r->Ok_0@),
        r is Ok ==> exists|u: User|
            #![auto]
            contains_user(store.users(), u) && u.username@ == credentials.username@
                && final(sessions)@ == old(sessions)@.insert(r->Ok_0@, session_for(u.id, now)),
{
    let found = store.find_by_username(credentials.username.as_str());
    let r = login(found, credentials, sessions, now);
    proof {
        match found {
            Some(u) => {
                if credentials_match(*u, *credentials) {
                    let i = choose|i: int|
                        0 <= i < store.users().len() && store.users()[i] == *u;
                    assert((#[trigger] store.users()[i]).username@ == credentials.username@);
                } else {
                    if credentials_valid(store.users(), *credentials) {
                        let i = choose|i: int|
                            0 <= i < store.users().len() && (#[trigger] store.users()[i]).username@
                                == credentials.username@ && credentials_match(
                                store.users()[i],
                                *credentials,
                            );
                        assert(contains_user(store.users(), store.users()[i]));
                        store.lemma_user_unique(*u, store.users()[i]);
                    }
                }
            },
            None => {
                if credentials_valid(store.users(), *credentials) {
                    let i = choose|i: int|
                        0 <= i < store.users().len() && (#[trigger] store.users()[i]).username@
                            == credentials.username@ && credentials_match(
                            store.users()[i],
                            *credentials,
                        );
                    assert(has_username(store.users(), credentials.username@));
                }
            },
        }
    }
    r
}

/// Law: a token handed out by a successful login identifies the logged-in
/// user. Whatever the session store held before, resolving the fresh token
/// at any instant before the session's expiry yields exactly the user id
/// the login filed it for.
pub proof fn lemma_login_token_identifies(
    m: Map<Seq<char>, Session>,
    token: Seq<char>,
    user_id: i32,
    now: u64,
    later: u64,
)
    requires
        now + SESSION_LIFE_TIME <= u64::MAX,
        later < now + SESSION_LIFE_TIME,
    ensures
        spec_resolve(m.insert(token, session_for(user_id, now)), token, later) == Some(user_id),
{
    crate::session::lemma_fresh_token_resolves(
        m,
        token,
        user_id,
        (now + SESSION_LIFE_TIME) as u64,
        later,
    );
}

/// Resolves an Authorization header to the user id its bearer token names:
/// the header must have the form `Bearer <token>` and the token must be
/// live in the session store at instant `now`. Every failure is the one
/// `Unauthenticated` value.
pub fn resolve_bearer(header: Option<&str>, sessions: &SessionStore, now: u64) -> (r: Result<
    i32,
    AuthError,
>)
    requires
        sessions.wf(),
    ensures
        r is Err ==> r->Err_0 == AuthError::Unauthenticated,
        r is Ok <==> (match header {
            Some(h) => spec_bearer_token(h@) is Some && spec_resolve(
                sessions@,
                spec_bearer_token(h@)->0,
                now,
            ) is Some,
            None => false,
        }),
        r is Ok ==> (match header {
            Some(h) => r->Ok_0 == spec_resolve(sessions@, spec_bearer_token(h@)->0, now)->0,
            None => false,
        }),
{
    match parse_bearer(header) {
        Some(token) => {
            match sessions.resolve(token.as_str(), now) {
                Some(user_id) => Ok(user_id),
                None => Err(AuthError::Unauthenticated),
            }
        },
        None => Err(AuthError::Unauthenticated),
    }
}

/// Resolves an Authorization header all the way to the identity it names:
/// bearer token, live session, then the user record the session points at.
/// A missing or ill-formed header, an expired or never-issued token, and a
/// session whose user has since been deleted all yield the one
/// `Unauthenticated` value.
pub fn identify(header: Option<&str>, sessions: &SessionStore, store: &UserStore, now: u64) -> (r:
    Result<User, AuthError>)
    requires
        sessions.wf(),
        store.wf(),
    ensures
        r is Err ==> r->Err_0 == AuthError::Unauthenticated,
        r is Ok ==> (match header {
            Some(h) => spec_bearer_token(h@) is Some && spec_resolve(
                sessions@,
                spec_bearer_token(h@)->0,
                now,
            ) == Some(r->Ok_0.id) && contains_user(store.users(), r->Ok_0),
            None => false,
        }),
        r is Err ==> (match header {
            Some(h) => spec_bearer_token(h@) is None || spec_resolve(
                sessions@,
                spec_bearer_token(h@)->0,
                now,
            ) is None || !has_user_id(
                store.users(),
                spec_resolve(sessions@, spec_bearer_token(h@)->0, now)->0,
            ),
            None => true,
        }),
{
    match resolve_bearer(header, sessions, now) {
        Ok(user_id) => {
            match store.find(user_id) {
                Some(u) => Ok(u.clone()),
                None => Err(AuthError::Unauthenticated),
            }
        },
        Err(e) => Err(e),
    }
}

} // verus!
