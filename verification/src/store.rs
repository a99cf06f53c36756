//! The user and role store, with the user-creation and deletion logic.
//!
//! Users are unique by id and by username; roles are unique by id and by
//! code. Role assignments tie a user id to a role id, many-to-many. Creating
//! a user files one role assignment per requested code, creating any role
//! record the store does not know yet.

use vstd::prelude::*;

use crate::models::{code_chars, is_privileged_code, Role, RoleCode, User};
use crate::password::{hash_password, password_matches, phc_wellformed};

verus! {

/// One role assignment: the user holds the role.
#[derive(Clone, Copy, Debug, PartialEq, Eq, Structural)]
pub struct UserRole {
    pub user_id: i32,
    pub role_id: i32,
}

/// Whether `u` is one of the records in `users`.
pub open spec fn contains_user(users: Seq<User>, u: User) -> bool {
    exists|i: int| 0 <= i < users.len() && users[i] == u
}

/// Whether some record in `users` carries this username.
pub open spec fn has_username(users: Seq<User>, name: Seq<char>) -> bool {
    exists|i: int| 0 <= i < users.len() && (#[trigger] users[i]).username@ == name
}

/// Whether some record in `users` carries this id.
pub open spec fn has_user_id(users: Seq<User>, id: i32) -> bool {
    exists|i: int| 0 <= i < users.len() && (#[trigger] users[i]).id == id
}

/// Whether some role record carries this code.
pub open spec fn has_role_code(roles: Seq<Role>, code: Seq<char>) -> bool {
    exists|i: int| 0 <= i < roles.len() && code_chars((#[trigger] roles[i]).code) == code
}

/// Whether some role record carries this role id.
pub open spec fn role_id_known(roles: Seq<Role>, role_id: i32) -> bool {
    exists|j: int| 0 <= j < roles.len() && (#[trigger] roles[j]).id == role_id
}

/// Whether some role record carries this role id together with this code.
pub open spec fn role_known(roles: Seq<Role>, role_id: i32, code: Seq<char>) -> bool {
    exists|j: int|
        0 <= j < roles.len() && (#[trigger] roles[j]).id == role_id && code_chars(roles[j].code)
            == code
}

/// Whether one of `codes` spells `code`.
pub open spec fn code_among(codes: Seq<RoleCode>, code: Seq<char>) -> bool {
    exists|k: int| 0 <= k < codes.len() && code_chars(#[trigger] codes[k]) == code
}

/// Whether the user holds a role with this code: some assignment ties the
/// user to a role record carrying the code.
pub open spec fn role_granted(
    roles: Seq<Role>,
    assignments: Seq<UserRole>,
    user_id: i32,
    code: Seq<char>,
) -> bool {
    exists|i: int|
        0 <= i < assignments.len() && (#[trigger] assignments[i]).user_id == user_id && role_known(
            roles,
            assignments[i].role_id,
            code,
        )
}

/// Whether the user holds some role whose code gates editor operations.
pub open spec fn editor_granted(roles: Seq<Role>, assignments: Seq<UserRole>, user_id: i32) -> bool {
    exists|code: Seq<char>|
        #[trigger] role_granted(roles, assignments, user_id, code) && is_privileged_code(code)
}

/// A role record keeps its id and code when the role sequence grows at the
/// end.
proof fn lemma_role_known_grows(r1: Seq<Role>, r2: Seq<Role>, role_id: i32, code: Seq<char>)
    requires
        role_known(r1, role_id, code),
        r1.len() <= r2.len(),
        forall|i: int| 0 <= i < r1.len() ==> r2[i] == r1[i],
    ensures
        role_known(r2, role_id, code),
{
    let j = choose|j: int|
        0 <= j < r1.len() && (#[trigger] r1[j]).id == role_id && code_chars(r1[j].code) == code;
    assert(r2[j] == r1[j]);
}

/// As `lemma_role_known_grows`, for a bare role id.
proof fn lemma_role_id_known_grows(r1: Seq<Role>, r2: Seq<Role>, role_id: i32)
    requires
        role_id_known(r1, role_id),
        r1.len() <= r2.len(),
        forall|i: int| 0 <= i < r1.len() ==> r2[i] == r1[i],
    ensures
        role_id_known(r2, role_id),
{
    let j = choose|j: int| 0 <= j < r1.len() && (#[trigger] r1[j]).id == role_id;
    assert(r2[j] == r1[j]);
}

/// A granted role stays granted when roles and assignments grow at the end.
proof fn lemma_role_granted_grows(
    roles1: Seq<Role>,
    roles2: Seq<Role>,
    asg1: Seq<UserRole>,
    asg2: Seq<UserRole>,
    user_id: i32,
    code: Seq<char>,
)
    requires
        role_granted(roles1, asg1, user_id, code),
        roles1.len() <= roles2.len(),
        forall|i: int| 0 <= i < roles1.len() ==> roles2[i] == roles1[i],
        asg1.len() <= asg2.len(),
        forall|i: int| 0 <= i < asg1.len() ==> asg2[i] == asg1[i],
    ensures
        role_granted(roles2, asg2, user_id, code),
{
    let i = choose|i: int|
        0 <= i < asg1.len() && (#[trigger] asg1[i]).user_id == user_id && role_known(
            roles1,
            asg1[i].role_id,
            code,
        );
    assert(asg2[i] == asg1[i]);
    lemma_role_known_grows(roles1, roles2, asg1[i].role_id, code);
}

/// Whether `a` is one of the assignments in `asg`.
pub open spec fn contains_assignment(asg: Seq<UserRole>, a: UserRole) -> bool {
    exists|i: int| 0 <= i < asg.len() && asg[i] == a
}

/// The assignments left once every assignment of user `user_id` is removed,
/// in the order they were filed.
pub open spec fn assignments_without(asg: Seq<UserRole>, user_id: i32) -> Seq<UserRole>
    decreases asg.len(),
{
    if asg.len() == 0 {
        Seq::empty()
    } else {
        let rest = assignments_without(asg.drop_last(), user_id);
        if asg.last().user_id == user_id {
            rest
        } else {
            rest.push(asg.last())
        }
    }
}

/// Every assignment left by the removal was already filed, and none of the
/// removed user's assignments is left.
proof fn lemma_assignments_without(asg: Seq<UserRole>, user_id: i32)
    ensures
        forall|k: int|
            0 <= k < assignments_without(asg, user_id).len() ==> contains_assignment(
                asg,
                #[trigger] assignments_without(asg, user_id)[k],
            ) && assignments_without(asg, user_id)[k].user_id != user_id,
    decreases asg.len(),
{
    if asg.len() > 0 {
        lemma_assignments_without(asg.drop_last(), user_id);
        let result = assignments_without(asg, user_id);
        let rest = assignments_without(asg.drop_last(), user_id);
        assert forall|k: int| 0 <= k < result.len() implies contains_assignment(
            asg,
            #[trigger] result[k],
        ) && result[k].user_id != user_id by {
            if k < rest.len() {
                assert(contains_assignment(asg.drop_last(), rest[k]));
                let i = choose|i: int| 0 <= i < asg.drop_last().len() && asg.drop_last()[i]
                    == rest[k];
                assert(asg[i] == rest[k]);
            } else {
                assert(result[k] == asg.last());
                assert(asg[asg.len() - 1] == asg.last());
            }
        }
    }
}

/// Why a user could not be created.
#[derive(Clone, Copy, Debug, PartialEq, Eq, Structural)]
pub enum CreateUserError {
    /// The username is already taken; usernames are unique.
    UsernameTaken,
    /// The password could not be hashed; nothing was stored.
    HashingFailed,
    /// No fresh record id was available.
    IdsExhausted,
}

/// The user and role store.
pub struct UserStore {
    users: Vec<User>,
    roles: Vec<Role>,
    assignments: Vec<UserRole>,
    next_user_id: i32,
    next_role_id: i32,
}

impl UserStore {
    /// The user records, in insertion order.
    pub closed spec fn users(&self) -> Seq<User> {
        self.users@
    }

    /// The role records, in insertion order.
    pub closed spec fn roles(&self) -> Seq<Role> {
        self.roles@
    }

    /// The role assignments, in insertion order.
    pub closed spec fn assignments(&self) -> Seq<UserRole> {
        self.assignments@
    }

    /// Users are unique by id and username, roles by id and code, record
    /// ids stay below the next free one, and every assignment points at an
    /// existing role record.
    pub closed spec fn wf(&self) -> bool {
        &&& forall|i: int, j: int|
            0 <= i < j < self.users@.len() ==> (#[trigger] self.users@[i]).id
                != (#[trigger] self.users@[j]).id
        &&& forall|i: int, j: int|
            0 <= i < j < self.users@.len() ==> (#[trigger] self.users@[i]).username@
                != (#[trigger] self.users@[j]).username@
        &&& forall|i: int| 0 <= i < self.users@.len() ==> (#[trigger] self.users@[i]).id
            < self.next_user_id
        &&& forall|i: int, j: int|
            0 <= i < j < self.roles@.len() ==> (#[trigger] self.roles@[i]).id
                != (#[trigger] self.roles@[j]).id
        &&& forall|i: int, j: int|
            0 <= i < j < self.roles@.len() ==> code_chars((#[trigger] self.roles@[i]).code)
                != code_chars((#[trigger] self.roles@[j]).code)
        &&& forall|i: int| 0 <= i < self.roles@.len() ==> (#[trigger] self.roles@[i]).id
            < self.next_role_id
        &&& forall|i: int|
            0 <= i < self.assignments@.len() ==> role_id_known(
                self.roles@,
                (#[trigger] self.assignments@[i]).role_id,
            )
    }

    /// An empty store.
    pub fn new() -> (s: UserStore)
        ensures
            s.wf(),
            s.users() == Seq::<User>::empty(),
            s.roles() == Seq::<Role>::empty(),
            s.assignments() == Seq::<UserRole>::empty(),
    {
        UserStore {
            users: Vec::new(),
            roles: Vec::new(),
            assignments: Vec::new(),
            next_user_id: 1,
            next_role_id: 1,
        }
    }

    /// The record filed under this username, if the store knows it.
    pub fn find_by_username(&self, username: &str) -> (r: Option<&User>)
        ensures
            r is Some <==> has_username(self.users(), username@),
            r is Some ==> contains_user(self.users(), *r->0) && r->0.username@ == username@,
    {
        let n = self.users.len();
        let mut i: usize = 0;
        while i < n
            invariant
                n == self.users@.len(),
                i <= n,
                forall|j: int| 0 <= j < i ==> (#[trigger] self.users@[j]).username@ != username@,
            decreases n - i,
        {
            if crate::util::str_eq(self.users[i].username.as_str(), username) {
                return Some(&self.users[i]);
            }
            i = i + 1;
        }
        None
    }

    /// The record filed under this user id, if the store knows it.
    pub fn find(&self, id: i32) -> (r: Option<&User>)
        ensures
            r is Some <==> has_user_id(self.users(), id),
            r is Some ==> contains_user(self.users(), *r->0) && r->0.id == id,
    {
        let n = self.users.len();
        let mut i: usize = 0;
        while i < n
            invariant
                n == self.users@.len(),
                i <= n,
                forall|j: int| 0 <= j < i ==> (#[trigger] self.users@[j]).id != id,
            decreases n - i,
        {
            if self.users[i].id == id {
                return Some(&self.users[i]);
            }
            i = i + 1;
        }
        None
    }

    /// The index of the role record carrying this code, if any.
    fn find_role_by_code(&self, code: &RoleCode) -> (r: Option<usize>)
        ensures
            match r {
                Some(i) => i < self.roles@.len() && code_chars(self.roles@[i as int].code)
                    == code_chars(*code),
                None => !has_role_code(self.roles(), code_chars(*code)),
            },
    {
        let n = self.roles.len();
        let mut i: usize = 0;
        while i < n
            invariant
                n == self.roles@.len(),
                i <= n,
                forall|j: int|
                    0 <= j < i ==> code_chars((#[trigger] self.roles@[j]).code) != code_chars(
                        *code,
                    ),
            decreases n - i,
        {
            if self.roles[i].code.code_eq(code) {
                return Some(i);
            }
            i = i + 1;
        }
        None
    }

    /// The index of the role record carrying this id, if any.
    fn find_role_by_id(&self, role_id: i32) -> (r: Option<usize>)
        ensures
            match r {
                Some(i) => i < self.roles@.len() && self.roles@[i as int].id == role_id,
                None => !role_id_known(self.roles@, role_id),
            },
    {
        let n = self.roles.len();
        let mut i: usize = 0;
        while i < n
            invariant
                n == self.roles@.len(),
                i <= n,
                forall|j: int| 0 <= j < i ==> (#[trigger] self.roles@[j]).id != role_id,
            decreases n - i,
        {
            if self.roles[i].id == role_id {
                return Some(i);
            }
            i = i + 1;
        }
        None
    }

    /// Finds the role record carrying this code, creating it if the store
    /// does not know the code yet; an auto-created role is named after its
    /// code. Yields the role's id, or nothing when no fresh role id is left.
    fn ensure_role(&mut self, code: &RoleCode) -> (r: Option<i32>)
        requires
            old(self).wf(),
        ensures
            final(self).wf(),
            final(self).users() == old(self).users(),
            final(self).assignments() == old(self).assignments(),
            final(self).next_user_id == old(self).next_user_id,
            old(self).roles().len() <= final(self).roles().len(),
            forall|i: int|
                0 <= i < old(self).roles().len() ==> final(self).roles()[i] == old(self).roles()[i],
            forall|i: int|
                old(self).roles().len() <= i < final(self).roles().len() ==> code_chars(
                    (#[trigger] final(self).roles()[i]).code,
                ) == code_chars(*code),
            r is Some ==> role_known(final(self).roles(), r->0, code_chars(*code)),
            r is None ==> final(self).roles() == old(self).roles(),
    {
        match self.find_role_by_code(code) {
            Some(i) => {
                let rid = self.roles[i].id;
                proof {
                    assert(0 <= i < self.roles().len() && self.roles()[i as int].id == rid
                        && code_chars(self.roles()[i as int].code) == code_chars(*code));
                }
                Some(rid)
            },
            None => {
                if self.next_role_id == i32::MAX {
                    return None;
                }
                let id = self.next_role_id;
                self.next_role_id = self.next_role_id + 1;
                let role = Role { id, code: code.clone(), name: code.to_code() };
                let ghost roles0 = self.roles@;
                self.roles.push(role);
                proof {
                    assert(forall|i: int| 0 <= i < roles0.len() ==> self.roles@[i] == roles0[i]);
                    assert(self.roles@[roles0.len() as int] == role && role.id == id && code_chars(
                        role.code,
                    ) == code_chars(*code));
                    assert forall|i: int| 0 <= i < self.assignments@.len() implies role_id_known(
                        self.roles@,
                        (#[trigger] self.assignments@[i]).role_id,
                    ) by {
                        lemma_role_id_known_grows(roles0, self.roles@, self.assignments@[i].role_id);
                    }
                }
                Some(id)
            },
        }
    }

    /// Creates a user: hashes the password with a fresh salt, files the
    /// record under a fresh id, and grants one role per requested code,
    /// auto-creating role records for codes the store does not know.
    ///
    /// A taken username is refused — usernames are unique — and on any
    /// failure no user record and no assignment is filed. Role records only
    /// ever accumulate, and only for requested codes.
    pub fn create_user(
        &mut self,
        username: String,
        password: String,
        role_codes: Vec<RoleCode>,
        created_at: i64,
    ) -> (r: Result<User, CreateUserError>)
        requires
            old(self).wf(),
        ensures
            final(self).wf(),
            (r is Err && r->Err_0 == CreateUserError::UsernameTaken) <==> has_username(
                old(self).users(),
                username@,
            ),
            r is Err ==> final(self).users() == old(self).users() && final(self).assignments()
                == old(self).assignments(),
            r is Ok ==> final(self).users() == old(self).users().push(r->Ok_0),
            r is Ok ==> r->Ok_0.username@ == username@ && r->Ok_0.created_at == created_at,
            r is Ok ==> phc_wellformed(r->Ok_0.password@) && password_matches(
                password@,
                r->Ok_0.password@,
            ),
            r is Ok ==> !has_user_id(old(self).users(), r->Ok_0.id),
            r is Ok ==> forall|k: int|
                0 <= k < role_codes@.len() ==> role_granted(
                    final(self).roles(),
                    final(self).assignments(),
                    r->Ok_0.id,
                    code_chars(#[trigger] role_codes@[k]),
                ),
            old(self).roles().len() <= final(self).roles().len(),
            forall|i: int|
                0 <= i < old(self).roles().len() ==> final(self).roles()[i] == old(self).roles()[i],
            forall|i: int|
                old(self).roles().len() <= i < final(self).roles().len() ==> code_among(
                    role_codes@,
                    code_chars((#[trigger] final(self).roles()[i]).code),
                ),
            r is Ok ==> old(self).assignments().len() <= final(self).assignments().len() && (forall|
                i: int,
            |
                0 <= i < old(self).assignments().len() ==> final(self).assignments()[i] == old(
                    self,
                ).assignments()[i]) && (forall|i: int|
                old(self).assignments().len() <= i < final(self).assignments().len() ==> (
                #[trigger] final(self).assignments()[i]).user_id == r->Ok_0.id),
    {
        if self.find_by_username(username.as_str()).is_some() {
            return Err(CreateUserError::UsernameTaken);
        }
        if self.next_user_id == i32::MAX {
            return Err(CreateUserError::IdsExhausted);
        }
        let hashed = match hash_password(password) {
            Ok(h) => h,
            Err(_) => {
                return Err(CreateUserError::HashingFailed);
            },
        };
        let uid = self.next_user_id;
        let n = role_codes.len();
        let mut role_ids: Vec<i32> = Vec::new();
        let mut k: usize = 0;
        while k < n
            invariant
                self.wf(),
                n == role_codes@.len(),
                k <= n,
                role_ids@.len() == k,
                !has_username(old(self).users(), username@),
                uid == old(self).next_user_id,
                uid < i32::MAX,
                self.users() == old(self).users(),
                self.assignments() == old(self).assignments(),
                self.next_user_id == old(self).next_user_id,
                old(self).roles().len() <= self.roles().len(),
                forall|i: int|
                    0 <= i < old(self).roles().len() ==> self.roles()[i] == old(self).roles()[i],
                forall|i: int|
                    old(self).roles().len() <= i < self.roles().len() ==> code_among(
                        role_codes@,
                        code_chars((#[trigger] self.roles()[i]).code),
                    ),
                forall|m: int|
                    0 <= m < k ==> role_known(
                        self.roles(),
                        #[trigger] role_ids@[m],
                        code_chars(role_codes@[m]),
                    ),
            decreases n - k,
        {
            let ghost before = *self;
            match self.ensure_role(&role_codes[k]) {
                Some(rid) => {
                    proof {
                        assert forall|m: int| 0 <= m < k implies role_known(
                            self.roles(),
                            #[trigger] role_ids@[m],
                            code_chars(role_codes@[m]),
                        ) by {
                            lemma_role_known_grows(
                                before.roles(),
                                self.roles(),
                                role_ids@[m],
                                code_chars(role_codes@[m]),
                            );
                        }
                        assert forall|i: int|
                            old(self).roles().len() <= i < self.roles().len() implies code_among(
                            role_codes@,
                            code_chars((#[trigger] self.roles()[i]).code),
                        ) by {
                            if i < before.roles().len() {
                                assert(self.roles()[i] == before.roles()[i]);
                            } else {
                                assert(code_chars(self.roles()[i].code) == code_chars(
                                    role_codes@[k as int],
                                ));
                            }
                        }
                    }
                    role_ids.push(rid);
                    k = k + 1;
                },
                None => {
                    return Err(CreateUserError::IdsExhausted);
                },
            }
        }
        let user = User { id: uid, username, password: hashed, created_at };
        let result = user.clone();
        self.next_user_id = self.next_user_id + 1;
        let ghost users0 = self.users();
        self.users.push(user);
        proof {
            assert(forall|i: int| 0 <= i < users0.len() ==> self.users()[i] == users0[i]);
            assert(self.users()[users0.len() as int] == result);
            assert(self.users() =~= users0.push(result));
            assert(forall|i: int|
                0 <= i < users0.len() ==> (#[trigger] users0[i]).username@ != result.username@);
            assert(forall|i: int| 0 <= i < users0.len() ==> (#[trigger] users0[i]).id != uid);
        }
        let ghost users_after = self.users();
        let ghost roles_after = self.roles();
        let mut m: usize = 0;
        while m < n
            invariant
                m <= n,
                n == role_codes@.len(),
                role_ids@.len() == n,
                !has_username(old(self).users(), username@),
                users_after == old(self).users().push(result),
                self.users() == users_after,
                self.roles() == roles_after,
                self.wf(),
                result.id == uid,
                old(self).assignments().len() <= self.assignments().len(),
                forall|i: int|
                    0 <= i < old(self).assignments().len() ==> self.assignments()[i] == old(
                        self,
                    ).assignments()[i],
                forall|i: int|
                    old(self).assignments().len() <= i < self.assignments().len() ==> (
                    #[trigger] self.assignments()[i]).user_id == uid,
                forall|q: int|
                    0 <= q < n ==> role_known(
                        self.roles(),
                        #[trigger] role_ids@[q],
                        code_chars(role_codes@[q]),
                    ),
                forall|q: int|
                    0 <= q < m ==> role_granted(
                        self.roles(),
                        self.assignments(),
                        uid,
                        code_chars(#[trigger] role_codes@[q]),
                    ),
            decreases n - m,
        {
            let ghost asg0 = self.assignments();
            let new_asg = UserRole { user_id: uid, role_id: role_ids[m] };
            self.assignments.push(new_asg);
            proof {
                assert(forall|i: int| 0 <= i < asg0.len() ==> self.assignments()[i] == asg0[i]);
                assert(self.assignments()[asg0.len() as int] == new_asg);
                assert forall|q: int| 0 <= q < m + 1 implies role_granted(
                    self.roles(),
                    self.assignments(),
                    uid,
                    code_chars(#[trigger] role_codes@[q]),
                ) by {
                    if q < m {
                        lemma_role_granted_grows(
                            self.roles(),
                            self.roles(),
                            asg0,
                            self.assignments(),
                            uid,
                            code_chars(role_codes@[q]),
                        );
                    } else {
                        assert(self.assignments()[asg0.len() as int].user_id == uid && role_known(
                            self.roles(),
                            self.assignments()[asg0.len() as int].role_id,
                            code_chars(role_codes@[q]),
                        ));
                    }
                }
            }
            m = m + 1;
        }
        Ok(result)
    }

    /// The index of the record filed under this user id, if any.
    fn find_user_index(&self, id: i32) -> (r: Option<usize>)
        ensures
            match r {
                Some(i) => i < self.users@.len() && self.users@[i as int].id == id,
                None => !has_user_id(self.users(), id),
            },
    {
        let n = self.users.len();
        let mut i: usize = 0;
        while i < n
            invariant
                n == self.users@.len(),
                i <= n,
                forall|j: int| 0 <= j < i ==> (#[trigger] self.users@[j]).id != id,
            decreases n - i,
        {
            if self.users[i].id == id {
                return Some(i);
            }
            i = i + 1;
        }
        None
    }

    /// Under distinct role ids, a role id names exactly one code.
    proof fn lemma_role_code_unique(&self, role_id: i32, code: Seq<char>, j: int)
        requires
            self.wf(),
            0 <= j < self.roles@.len(),
            self.roles@[j].id == role_id,
            role_known(self.roles@, role_id, code),
        ensures
            code_chars(self.roles@[j].code) == code,
    {
        let j2 = choose|j2: int|
            0 <= j2 < self.roles@.len() && (#[trigger] self.roles@[j2]).id == role_id && code_chars(
                self.roles@[j2].code,
            ) == code;
        if j2 != j {
            assert(self.roles@[j].id != self.roles@[j2].id);
        }
    }

    /// The role records the user holds, one per assignment, read through
    /// from the store on every check. The result lists a role code exactly
    /// when the user holds a role carrying it.
    pub fn find_roles_of(&self, user_id: i32) -> (r: Vec<Role>)
        requires
            self.wf(),
        ensures
            forall|k: int|
                0 <= k < r@.len() ==> role_granted(
                    self.roles(),
                    self.assignments(),
                    user_id,
                    code_chars((#[trigger] r@[k]).code),
                ),
            forall|code: Seq<char>|
                #[trigger] role_granted(self.roles(), self.assignments(), user_id, code)
                    ==> has_role_code(r@, code),
    {
        let n = self.assignments.len();
        let mut found: Vec<Role> = Vec::new();
        let mut i: usize = 0;
        while i < n
            invariant
                self.wf(),
                n == self.assignments@.len(),
                i <= n,
                forall|k: int|
                    0 <= k < found@.len() ==> role_granted(
                        self.roles@,
                        self.assignments@,
                        user_id,
                        code_chars((#[trigger] found@[k]).code),
                    ),
                forall|j: int, code: Seq<char>|
                    0 <= j < i && (#[trigger] self.assignments@[j]).user_id == user_id && (
                    #[trigger] role_known(self.roles@, self.assignments@[j].role_id, code))
                        ==> has_role_code(found@, code),
            decreases n - i,
        {
            let a = self.assignments[i];
            if a.user_id == user_id {
                match self.find_role_by_id(a.role_id) {
                    Some(j) => {
                        let role = self.roles[j].clone();
                        let ghost grole = role;
                        let ghost found0 = found@;
                        found.push(role);
                        proof {
                            assert(found@[found0.len() as int] == grole);
                            assert(grole == self.roles@[j as int]);
                            assert(forall|k: int| 0 <= k < found0.len() ==> found@[k] == found0[k]);
                            assert(role_known(self.roles@, a.role_id, code_chars(grole.code)));
                            assert(role_granted(
                                self.roles@,
                                self.assignments@,
                                user_id,
                                code_chars(grole.code),
                            ));
                            assert forall|code: Seq<char>| #[trigger] role_known(
                                self.roles@,
                                a.role_id,
                                code,
                            ) implies has_role_code(found@, code) by {
                                self.lemma_role_code_unique(a.role_id, code, j as int);
                                assert(code_chars(
                                    (#[trigger] found@[found0.len() as int]).code,
                                ) == code);
                            }
                            assert forall|code: Seq<char>| has_role_code(found0, code) implies
                                has_role_code(found@, code) by {
                                let k = choose|k: int|
                                    0 <= k < found0.len() && code_chars(
                                        (#[trigger] found0[k]).code,
                                    ) == code;
                                assert(code_chars((#[trigger] found@[k]).code) == code);
                            }
                        }
                    },
                    None => {
                        proof {
                            assert(role_id_known(self.roles@, a.role_id));
                            assert(false);
                        }
                    },
                }
            }
            i = i + 1;
        }
        proof {
            assert forall|code: Seq<char>| #[trigger] role_granted(
                self.roles@,
                self.assignments@,
                user_id,
                code,
            ) implies has_role_code(found@, code) by {
                let j = choose|j: int|
                    0 <= j < self.assignments@.len() && (#[trigger] self.assignments@[j]).user_id
                        == user_id && role_known(self.roles@, self.assignments@[j].role_id, code);
                assert(role_known(self.roles@, self.assignments@[j].role_id, code));
            }
        }
        found
    }

    /// Every user record together with the role records the user holds:
    /// one pair per user, in store order, the roles read through as
    /// `find_roles_of` reads them.
    pub fn users_with_roles(&self) -> (r: Vec<(User, Vec<Role>)>)
        requires
            self.wf(),
        ensures
            r@.len() == self.users().len(),
            forall|k: int| 0 <= k < r@.len() ==> (#[trigger] r@[k]).0 == self.users()[k],
            forall|k: int, j: int|
                0 <= k < r@.len() && 0 <= j < (#[trigger] r@[k]).1@.len() ==> role_granted(
                    self.roles(),
                    self.assignments(),
                    r@[k].0.id,
                    code_chars((#[trigger] r@[k].1@[j]).code),
                ),
            forall|k: int, code: Seq<char>|
                0 <= k < r@.len() && #[trigger] role_granted(
                    self.roles(),
                    self.assignments(),
                    (#[trigger] r@[k]).0.id,
                    code,
                ) ==> has_role_code(r@[k].1@, code),
    {
        let n = self.users.len();
        let mut listed: Vec<(User, Vec<Role>)> = Vec::new();
        let mut i: usize = 0;
        while i < n
            invariant
                self.wf(),
                n == self.users@.len(),
                i <= n,
                listed@.len() == i,
                forall|k: int| 0 <= k < i ==> (#[trigger] listed@[k]).0 == self.users()[k],
                forall|k: int, j: int|
                    0 <= k < i && 0 <= j < (#[trigger] listed@[k]).1@.len() ==> role_granted(
                        self.roles(),
                        self.assignments(),
                        listed@[k].0.id,
                        code_chars((#[trigger] listed@[k].1@[j]).code),
                    ),
                forall|k: int, code: Seq<char>|
                    0 <= k < i && #[trigger] role_granted(
                        self.roles(),
                        self.assignments(),
                        (#[trigger] listed@[k]).0.id,
                        code,
                    ) ==> has_role_code(listed@[k].1@, code),
            decreases n - i,
        {
            let user = self.users[i].clone();
            let roles = self.find_roles_of(user.id);
            let ghost pair = (user, roles);
            let ghost listed0 = listed@;
            listed.push((user, roles));
            proof {
                assert(forall|k: int| 0 <= k < listed0.len() ==> listed@[k] == listed0[k]);
                assert(listed@[listed0.len() as int] == pair);
            }
            i = i + 1;
        }
        listed
    }

    /// If two records carry the same username, they are the same record.
    pub proof fn lemma_user_unique(&self, u1: User, u2: User)
        requires
            self.wf(),
            contains_user(self.users(), u1),
            contains_user(self.users(), u2),
            u1.username@ == u2.username@,
        ensures
            u1 == u2,
    {
    }
}

/// Deletes the user filed under `id`: every assignment of the user goes,
/// then the record itself; role records stay. Deleting an id the store does
/// not know leaves the user records unchanged.
pub fn delete_user(store: &mut UserStore, id: i32)
    requires
        old(store).wf(),
    ensures
        final(store).wf(),
        final(store).roles() == old(store).roles(),
        final(store).assignments() == assignments_without(old(store).assignments(), id),
        !has_user_id(final(store).users(), id),
        has_user_id(old(store).users(), id) ==> exists|i: int|
            0 <= i < old(store).users().len() && (#[trigger] old(store).users()[i]).id == id
                && final(store).users() == old(store).users().remove(i),
        !has_user_id(old(store).users(), id) ==> final(store).users() == old(store).users(),
{
    let ghost users0 = store.users@;
    let ghost asg0 = store.assignments@;
    let n = store.assignments.len();
    let mut kept: Vec<UserRole> = Vec::new();
    let mut i: usize = 0;
    proof {
        assert(asg0.take(0) =~= Seq::<UserRole>::empty());
    }
    while i < n
        invariant
            i <= n,
            n == store.assignments@.len(),
            store.assignments@ == asg0,
            kept@ == assignments_without(asg0.take(i as int), id),
        decreases n - i,
    {
        let a = store.assignments[i];
        proof {
            assert(asg0.take(i as int + 1).drop_last() =~= asg0.take(i as int));
            assert(asg0.take(i as int + 1).last() == asg0[i as int]);
        }
        if a.user_id != id {
            kept.push(a);
        }
        i = i + 1;
    }
    proof {
        assert(asg0.take(n as int) =~= asg0);
    }
    store.assignments = kept;
    proof {
        lemma_assignments_without(asg0, id);
        assert forall|k: int| 0 <= k < store.assignments@.len() implies role_id_known(
            store.roles@,
            (#[trigger] store.assignments@[k]).role_id,
        ) by {
            assert(contains_assignment(asg0, store.assignments@[k]));
            let i2 = choose|i2: int| 0 <= i2 < asg0.len() && asg0[i2] == store.assignments@[k];
            assert(role_id_known(store.roles@, (#[trigger] asg0[i2]).role_id));
        }
    }
    match store.find_user_index(id) {
        Some(idx) => {
            let _ = store.users.remove(idx);
            proof {
                let after = store.users@;
                assert(after =~= users0.remove(idx as int));
                assert(forall|p: int| 0 <= p < idx ==> after[p] == users0[p]);
                assert(forall|p: int| idx <= p < after.len() ==> after[p] == users0[p + 1]);
                assert forall|p: int| 0 <= p < after.len() implies (#[trigger] after[p]).id
                    != id by {
                    if p < idx {
                        assert(users0[p].id != users0[idx as int].id);
                    } else {
                        assert(users0[p + 1].id != users0[idx as int].id);
                    }
                }
            }
        },
        None => {},
    }
}

} // verus!
