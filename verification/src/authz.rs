//! The authorizer: the role-based access-control decision that gates
//! privileged operations.
//!
//! Two tiers exist: `Authenticated` admits every resolved identity, and
//! `Editor` asks for at least one role whose code gates editor operations.
//! A denial never says which role was missing — it is the one `Forbidden`
//! value.

use vstd::prelude::*;

use crate::models::{code_chars, is_privileged_code, AuthError, Role, User};
use crate::store::{editor_granted, has_role_code, role_granted, UserStore};

verus! {

/// Whether one of these role records gates editor operations.
pub open spec fn any_privileged(roles: Seq<Role>) -> bool {
    exists|i: int|
        0 <= i < roles.len() && is_privileged_code(code_chars((#[trigger] roles[i]).code))
}

/// An identity that passed the editor check: the wrapped user held an
/// editor-gating role when the check ran.
#[derive(Debug)]
pub struct EditorUser(pub User);

/// The access tiers an operation can ask for.
#[derive(Clone, Copy, Debug, PartialEq, Eq, Structural)]
pub enum AccessTier {
    /// Any resolved identity.
    Authenticated,
    /// An identity holding at least one editor-gating role.
    Editor,
}

/// Grants the editor tier exactly when one of the identity's role records
/// carries an editor-gating code; otherwise denies with `Forbidden` and no
/// word on which role was missing.
pub fn authorize_editor(user: User, roles: &Vec<Role>) -> (r: Result<EditorUser, AuthError>)
    ensures
        r is Ok <==> any_privileged(roles@),
        r is Ok ==> r->Ok_0.0 == user,
        r is Err ==> r->Err_0 == AuthError::Forbidden,
{
    let n = roles.len();
    let mut i: usize = 0;
    while i < n
        invariant
            i <= n,
            n == roles@.len(),
            forall|j: int|
                0 <= j < i ==> !is_privileged_code(code_chars((#[trigger] roles@[j]).code)),
        decreases n - i,
    {
        if roles[i].code.privileged() {
            return Ok(EditorUser(user));
        }
        i = i + 1;
    }
    Err(AuthError::Forbidden)
}

/// The access-control decision for one operation: admits any identity at
/// the `Authenticated` tier, and exactly the editor-gated identities at the
/// `Editor` tier.
pub fn authorize(user: User, roles: &Vec<Role>, tier: AccessTier) -> (r: Result<User, AuthError>)
    ensures
        tier is Authenticated ==> r is Ok,
        tier is Editor ==> (r is Ok <==> any_privileged(roles@)),
        r is Ok ==> r->Ok_0 == user,
        r is Err ==> r->Err_0 == AuthError::Forbidden,
{
    match tier {
        AccessTier::Authenticated => Ok(user),
        AccessTier::Editor => {
            match authorize_editor(user, roles) {
                Ok(editor) => Ok(editor.0),
                Err(e) => Err(e),
            }
        },
    }
}

/// Reads the identity's roles through from the store and runs the editor
/// check on them: grants exactly when the store ties the user to some role
/// whose code gates editor operations.
pub fn require_editor(store: &UserStore, user: User) -> (r: Result<EditorUser, AuthError>)
    requires
        store.wf(),
    ensures
        r is Ok <==> editor_granted(store.roles(), store.assignments(), user.id),
        r is Ok ==> r->Ok_0.0 == user,
        r is Err ==> r->Err_0 == AuthError::Forbidden,
{
    let ghost uid = user.id;
    let roles = store.find_roles_of(user.id);
    let r = authorize_editor(user, &roles);
    proof {
        if any_privileged(roles@) {
            let k = choose|k: int|
                0 <= k < roles@.len() && is_privileged_code(
                    code_chars((#[trigger] roles@[k]).code),
                );
            assert(role_granted(
                store.roles(),
                store.assignments(),
                uid,
                code_chars(roles@[k].code),
            ));
            assert(editor_granted(store.roles(), store.assignments(), uid));
        }
        if editor_granted(store.roles(), store.assignments(), uid) {
            let code = choose|code: Seq<char>|
                #[trigger] role_granted(store.roles(), store.assignments(), uid, code)
                    && is_privileged_code(code);
            assert(has_role_code(roles@, code));
            let k = choose|k: int|
                0 <= k < roles@.len() && code_chars((#[trigger] roles@[k]).code) == code;
            assert(is_privileged_code(code_chars(roles@[k].code)));
        }
    }
    r
}

} // verus!
