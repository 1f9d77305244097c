//! What the login and registration requests decide, separated from the
//! HTTP layer that carries them: input validation, the uniqueness check
//! on registration, and binding the resulting identity to the session.

use vstd::prelude::*;

verus! {

use crate::auth::{stored_user_id, AuthContext};
use crate::domain::user::{argon2_verifies, Password, User, UserModel, UserRole};
use crate::identity::{find_by_id, find_by_login, IdentityBackend, IdentityError};
use crate::session_store::SessionBackend;

/// A login request body.
pub struct LoginInput {
    pub login: String,
    pub password: String,
}

/// A registration request body.
pub struct RegisterInput {
    pub login: String,
    pub password: String,
}

/// A validated registration: the login and the accepted password.
pub struct NewUser {
    pub login: String,
    pub password: Password,
}

impl NewUser {
    /// Validate a registration request. Every password currently
    /// passes `Password::parse`, so this never rejects; the check sits
    /// here for a future password policy.
    pub fn try_from(value: RegisterInput) -> (r: Result<Self, String>)
        ensures
            r matches Ok(nu) && nu.login@ == value.login@ && nu.password@ == value.password@,
    {
        let password = match Password::parse(value.password.as_str()) {
            Ok(p) => p,
            Err(e) => {
                return Err(e);
            },
        };
        Ok(NewUser { login: value.login, password })
    }
}

/// The failure kinds of registration.
#[derive(Clone, Copy, Debug, PartialEq, Eq, Structural)]
pub enum RegisterError {
    /// The login is already taken (or the fresh id collided).
    Conflict,
    /// Hashing or a storage round trip failed; retryable.
    Backend,
}

/// Register a new identity and log it in: reject a taken login,
/// validate the input, hash the password, insert the credential and
/// bind it to the session.
pub fn register<S: SessionBackend, I: IdentityBackend>(
    ctx: &mut AuthContext,
    store: &mut S,
    users: &mut I,
    input: RegisterInput,
) -> (r: Result<(User, Option<String>), RegisterError>)
    requires
        old(ctx).session.wf(),
        old(store).inv(),
        old(users).inv(),
    ensures
        final(store).inv(),
        final(users).inv(),
        r matches Ok(p) ==> {
            &&& find_by_login(old(users).users(), input.login@) is None
            &&& p.0@.login == input.login@
            &&& p.0@.role == UserRole::User
            &&& argon2_verifies(input.password@, p.0@.password_hash)
            &&& final(users).users() == old(users).users().push(p.0@)
            &&& final(ctx).session.wf()
            &&& stored_user_id(final(ctx).session@.data) == Some(p.0@.id as int)
            &&& (final(ctx).current_user matches Some(u) && u@ == p.0@)
            &&& final(store).model() == old(store).model().insert(
                final(ctx).session@.id,
                final(ctx).session@,
            )
        },
        r matches Err(e) && e == RegisterError::Conflict ==> {
            &&& final(users).users() == old(users).users()
            &&& final(store).model() == old(store).model()
            &&& (find_by_login(old(users).users(), input.login@) is Some || old(
                users,
            ).users().len() > 0)
        },
        r matches Err(e) && e == RegisterError::Backend ==> {
            &&& (final(users).users() == old(users).users() || (exists|u: UserModel|
                #![auto]
                final(users).users() == old(users).users().push(u) && u.login == input.login@))
            &&& (final(store).model() == old(store).model() || final(store).model() == old(
                store,
            ).model().insert(final(ctx).session@.id, final(ctx).session@))
        },
{
    match users.by_login(input.login.as_str()) {
        Err(e) => {
            return Err(RegisterError::Backend);
        },
        Ok(Some(existing)) => {
            return Err(RegisterError::Conflict);
        },
        Ok(None) => {},
    }
    let new_user = match NewUser::try_from(input) {
        Ok(n) => n,
        Err(e) => {
            return Err(RegisterError::Backend);
        },
    };
    let user = match User::new(new_user.login.as_str(), new_user.password) {
        Ok(u) => u,
        Err(e) => {
            return Err(RegisterError::Backend);
        },
    };
    match users.insert_user(user.duplicate()) {
        Err(IdentityError::Conflict) => {
            proof {
                // The conflict is a taken unique key: the login, or the
                // freshly drawn id colliding in a non-empty table.
                if find_by_id(old(users).users(), user@.id) is Some {
                    assert(old(users).users().len() > 0);
                }
            }
            return Err(RegisterError::Conflict);
        },
        Err(IdentityError::Backend) => {
            proof {
                if users.users() != old(users).users() {
                    assert(users.users() == old(users).users().push(user@));
                    assert(user@.login == input.login@);
                }
            }
            return Err(RegisterError::Backend);
        },
        Ok(()) => {},
    }
    proof {
        assert(users.users() == old(users).users().push(user@));
        assert(user@.login == input.login@);
    }
    match ctx.login(store, &user) {
        Err(e) => Err(RegisterError::Backend),
        Ok(c) => Ok((user, c)),
    }
}

} // verus!
