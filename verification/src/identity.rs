//! Identity lookup: resolving a stable identity by primary key on every
//! authenticated request, and by login during login and registration.
//!
//! `IdentityBackend` is the contract; `MemoryUsers` is the injectable
//! in-memory double backing it for tests and non-durable mode, with the
//! production relational implementation assembled outside the library.
//! Logins are compared case-sensitively: one fixed, explicit policy.

use vstd::prelude::*;

verus! {

use crate::StoreError;
use crate::domain::user::{User, UserModel};
use crate::text::str_eq;

/// The first (with unique ids: the only) record carrying `id`.
pub open spec fn find_by_id(users: Seq<UserModel>, id: u128) -> Option<UserModel>
    decreases users.len(),
{
    if users.len() == 0 {
        None
    } else if users[0].id == id {
        Some(users[0])
    } else {
        find_by_id(users.drop_first(), id)
    }
}

/// The first (with unique logins: the only) record carrying `login`.
pub open spec fn find_by_login(users: Seq<UserModel>, login: Seq<char>) -> Option<UserModel>
    decreases users.len(),
{
    if users.len() == 0 {
        None
    } else if users[0].login == login {
        Some(users[0])
    } else {
        find_by_login(users.drop_first(), login)
    }
}

pub proof fn lemma_find_by_id_at(users: Seq<UserModel>, id: u128, i: int)
    requires
        0 <= i < users.len(),
        forall|k: int| 0 <= k < i ==> (#[trigger] users[k]).id != id,
        users[i].id == id,
    ensures
        find_by_id(users, id) == Some(users[i]),
    decreases i,
{
    if i > 0 {
        lemma_find_by_id_at(users.drop_first(), id, i - 1);
    }
}

pub proof fn lemma_find_by_id_absent(users: Seq<UserModel>, id: u128)
    requires
        forall|k: int| 0 <= k < users.len() ==> (#[trigger] users[k]).id != id,
    ensures
        find_by_id(users, id) is None,
    decreases users.len(),
{
    if users.len() > 0 {
        lemma_find_by_id_absent(users.drop_first(), id);
    }
}

pub proof fn lemma_find_by_login_at(users: Seq<UserModel>, login: Seq<char>, i: int)
    requires
        0 <= i < users.len(),
        forall|k: int| 0 <= k < i ==> (#[trigger] users[k]).login != login,
        users[i].login == login,
    ensures
        find_by_login(users, login) == Some(users[i]),
    decreases i,
{
    if i > 0 {
        lemma_find_by_login_at(users.drop_first(), login, i - 1);
    }
}

pub proof fn lemma_find_by_login_absent(users: Seq<UserModel>, login: Seq<char>)
    requires
        forall|k: int| 0 <= k < users.len() ==> (#[trigger] users[k]).login != login,
    ensures
        find_by_login(users, login) is None,
    decreases users.len(),
{
    if users.len() > 0 {
        lemma_find_by_login_absent(users.drop_first(), login);
    }
}

/// Failure kinds of the credential table.
#[derive(Clone, Copy, Debug, PartialEq, Eq, Structural)]
pub enum IdentityError {
    /// The id or the login is already taken; both are unique keys.
    Conflict,
    /// The storage round trip failed; retryable.
    Backend,
}

/// Resolving identities by key, against a credential table whose ids and
/// logins are unique.
pub trait IdentityBackend: Sized {
    /// The credential records the backend holds, in insertion order.
    open spec fn users(&self) -> Seq<UserModel> {
        Seq::empty()
    }

    open spec fn inv(&self) -> bool {
        true
    }

    /// Resolve by primary key. An identity deleted after its session was
    /// issued yields nothing, not a failure: the caller then treats the
    /// request as anonymous.
    fn by_id(&self, id: u128) -> (r: Result<Option<User>, StoreError>)
        requires
            self.inv(),
        ensures
            match r {
                Ok(found) => match found {
                    Some(u) => find_by_id(self.users(), id) == Some(u@),
                    None => find_by_id(self.users(), id) is None,
                },
                Err(e) => e == StoreError::BackendUnavailable,
            },
    ;

    /// Resolve by login; used only during login and registration.
    fn by_login(&self, login: &str) -> (r: Result<Option<User>, StoreError>)
        requires
            self.inv(),
        ensures
            match r {
                Ok(found) => match found {
                    Some(u) => find_by_login(self.users(), login@) == Some(u@),
                    None => find_by_login(self.users(), login@) is None,
                },
                Err(e) => e == StoreError::BackendUnavailable,
            },
    ;

    /// Add a credential record; fails on a taken id or login, the two
    /// unique keys.
    fn insert_user(&mut self, user: User) -> (r: Result<(), IdentityError>)
        requires
            old(self).inv(),
        ensures
            final(self).inv(),
            match r {
                Ok(u) => {
                    &&& find_by_id(old(self).users(), user@.id) is None
                    &&& find_by_login(old(self).users(), user@.login) is None
                    &&& final(self).users() == old(self).users().push(user@)
                },
                Err(e) => match e {
                    IdentityError::Conflict => {
                        &&& (find_by_id(old(self).users(), user@.id) is Some || find_by_login(
                            old(self).users(),
                            user@.login,
                        ) is Some)
                        &&& final(self).users() == old(self).users()
                    },
                    IdentityError::Backend => final(self).users() == old(self).users()
                        || final(self).users() == old(self).users().push(user@),
                },
            },
    ;
}

/// The in-memory credential table: a vector of identities whose ids and
/// logins are unique.
pub struct MemoryUsers {
    pub users: Vec<User>,
}

impl MemoryUsers {
    pub open spec fn wf(&self) -> bool {
        &&& forall|i: int, j: int|
            0 <= i < j < self.users@.len() ==> (#[trigger] self.users@[i])@.id
                != (#[trigger] self.users@[j])@.id
        &&& forall|i: int, j: int|
            0 <= i < j < self.users@.len() ==> (#[trigger] self.users@[i])@.login
                != (#[trigger] self.users@[j])@.login
    }

    pub fn new() -> (s: Self)
        ensures
            s.inv(),
            s.users() == Seq::<UserModel>::empty(),
    {
        proof {
            assert(Seq::<User>::empty().map_values(|u: User| u@) =~= Seq::<UserModel>::empty());
        }
        MemoryUsers { users: Vec::new() }
    }

    /// The abstract records, in insertion order.
    pub open spec fn models(&self) -> Seq<UserModel> {
        self.users@.map_values(|u: User| u@)
    }
}

impl IdentityBackend for MemoryUsers {
    open spec fn users(&self) -> Seq<UserModel> {
        self.models()
    }

    open spec fn inv(&self) -> bool {
        self.wf()
    }

    fn by_id(&self, id: u128) -> (r: Result<Option<User>, StoreError>) {
        let mut i: usize = 0;
        while i < self.users.len()
            invariant
                self.wf(),
                i <= self.users@.len(),
                forall|k: int| 0 <= k < i ==> (#[trigger] self.users@[k])@.id != id,
            decreases self.users@.len() - i,
        {
            if self.users[i].id.0 == id {
                proof {
                    lemma_find_by_id_at(self.models(), id, i as int);
                }
                return Ok(Some(self.users[i].duplicate()));
            }
            i = i + 1;
        }
        proof {
            lemma_find_by_id_absent(self.models(), id);
        }
        Ok(None)
    }

    fn by_login(&self, login: &str) -> (r: Result<Option<User>, StoreError>) {
        let mut i: usize = 0;
        while i < self.users.len()
            invariant
                self.wf(),
                i <= self.users@.len(),
                forall|k: int| 0 <= k < i ==> (#[trigger] self.users@[k])@.login != login@,
            decreases self.users@.len() - i,
        {
            if str_eq(self.users[i].login.as_str(), login) {
                proof {
                    lemma_find_by_login_at(self.models(), login@, i as int);
                }
                return Ok(Some(self.users[i].duplicate()));
            }
            i = i + 1;
        }
        proof {
            lemma_find_by_login_absent(self.models(), login@);
        }
        Ok(None)
    }

    fn insert_user(&mut self, user: User) -> (r: Result<(), IdentityError>) {
        let mut i: usize = 0;
        while i < self.users.len()
            invariant
                self.wf(),
                self == old(self),
                i <= self.users@.len(),
                forall|k: int|
                    0 <= k < i ==> (#[trigger] self.users@[k])@.id != user@.id && self.users@[k]@.login
                        != user@.login,
            decreases self.users@.len() - i,
        {
            if self.users[i].id.0 == user.id.0 {
                proof {
                    lemma_find_by_id_at(self.models(), user@.id, i as int);
                }
                return Err(IdentityError::Conflict);
            }
            if str_eq(self.users[i].login.as_str(), user.login.as_str()) {
                proof {
                    lemma_find_by_login_at(self.models(), user@.login, i as int);
                }
                return Err(IdentityError::Conflict);
            }
            i = i + 1;
        }
        proof {
            lemma_find_by_id_absent(self.models(), user@.id);
            lemma_find_by_login_absent(self.models(), user@.login);
            assert(self.users@.push(user).map_values(|u: User| u@) =~= self.models().push(user@));
        }
        self.users.push(user);
        Ok(())
    }
}

} // verus!
