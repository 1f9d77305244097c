//! The per-request authentication binder: compose cookie decoding, the
//! session store and identity lookup into a bound "current identity",
//! with `login` and `logout` as the two mutations.
//!
//! Any missing step — no cookie, a malformed cookie, an absent or
//! expired session, no identity id in the payload, an identity deleted
//! since the session was issued — yields an anonymous context, never an
//! error. Only an unavailable backend is surfaced, as retryable.

use vstd::prelude::*;

verus! {

use crate::StoreError;
use crate::cookie::{cookie_accepts, cookie_id};
use crate::domain::user::{User, UserModel};
use crate::hexnum::{all_hex, hex_value_of, lemma_pow16_32, u128_to_hex, u128_from_hex};
use crate::identity::{IdentityBackend, find_by_id, find_by_login};
use crate::routes::auth::LoginInput;
use crate::session::{SessionModel, SessionRecord};
use crate::session_store::{SessionBackend, load_spec};
use crate::text::{chars_vec, string_from_chars};

/// The payload key under which a session holds its bound identity id.
pub open spec fn auth_key_spec() -> Seq<char> {
    "auth_user_id"@
}

pub fn auth_key() -> (r: &'static str)
    ensures
        r@ == auth_key_spec(),
{
    "auth_user_id"
}

/// The identity id a session payload carries: present exactly when the
/// payload holds a 32-digit hexadecimal numeral under the auth key.
pub open spec fn stored_user_id(data: Map<Seq<char>, Seq<char>>) -> Option<int> {
    if data.contains_key(auth_key_spec()) {
        let v = data[auth_key_spec()];
        if v.len() == 32 && all_hex(v) {
            Some(hex_value_of(v))
        } else {
            None
        }
    } else {
        None
    }
}

/// The identity id rendered for the payload.
pub fn user_id_hex(id: u128) -> (r: String)
    ensures
        r@.len() == 32,
        all_hex(r@),
        hex_value_of(r@) == id as int,
{
    proof {
        lemma_pow16_32();
    }
    let v = u128_to_hex(id, 32);
    string_from_chars(&v)
}

/// Read the bound identity id out of a session's payload.
pub fn user_id_of_session(rec: &SessionRecord) -> (r: Option<u128>)
    requires
        rec.wf(),
    ensures
        r is Some <==> stored_user_id(rec@.data) is Some,
        r matches Some(v) ==> stored_user_id(rec@.data) == Some(v as int),
{
    match rec.get(auth_key()) {
        None => None,
        Some(v) => {
            let cs = chars_vec(v.as_str());
            if cs.len() != 32 {
                return None;
            }
            u128_from_hex(&cs)
        },
    }
}

pub open spec fn cookie_view(cv: Option<&str>) -> Option<Seq<char>> {
    match cv {
        None => None,
        Some(c) => Some(c@),
    }
}

/// What the store yields for a request's cookie: the stored session,
/// provided the cookie decodes and the row is present and alive.
pub open spec fn loaded_session(
    m: Map<Seq<char>, SessionModel>,
    cookie: Option<Seq<char>>,
    now: int,
) -> Option<SessionModel> {
    match cookie {
        None => None,
        Some(c) => if cookie_accepts(c) {
            load_spec(m, cookie_id(c), now)
        } else {
            None
        },
    }
}

/// The identity a request is bound to: the loaded session's stored
/// identity id resolved through the credential table.
pub open spec fn bound_identity(
    m: Map<Seq<char>, SessionModel>,
    users: Seq<UserModel>,
    cookie: Option<Seq<char>>,
    now: int,
) -> Option<UserModel> {
    match loaded_session(m, cookie, now) {
        None => None,
        Some(sm) => match stored_user_id(sm.data) {
            None => None,
            Some(uid) => if 0 <= uid < 0x100000000000000000000000000000000 {
                find_by_id(users, uid as u128)
            } else {
                None
            },
        },
    }
}

/// The resolved state of one request: its session record and the
/// identity it is bound to, if any.
pub struct AuthContext {
    pub session: SessionRecord,
    pub current_user: Option<User>,
}

impl AuthContext {
    /// An anonymous context around a fresh session.
    pub fn anonymous() -> (r: Self)
        ensures
            r.session.wf(),
            r.current_user is None,
            r.session@.data == Map::<Seq<char>, Seq<char>>::empty(),
            r.session@.expiry is None,
    {
        AuthContext { session: SessionRecord::new(), current_user: None }
    }

    /// Bind `user` to this request: write the identity id into the
    /// session payload, persist the session, and hand back the cookie
    /// value for the response when the client's cookie must be set.
    pub fn login<S: SessionBackend>(&mut self, store: &mut S, user: &User) -> (r: Result<
        Option<String>,
        StoreError,
    >)
        requires
            old(self).session.wf(),
            old(store).inv(),
        ensures
            final(store).inv(),
            final(self).session.wf(),
            final(self).session@.id == old(self).session@.id,
            final(self).session@.expiry == old(self).session@.expiry,
            stored_user_id(final(self).session@.data) == Some(user@.id as int),
            final(self).session@.data.remove(auth_key_spec()) == old(self).session@.data.remove(
                auth_key_spec(),
            ),
            final(self).session.cookie_opt() == old(self).session.cookie_opt(),
            r matches Ok(c) ==> {
                &&& (final(self).current_user matches Some(u) && u@ == user@)
                &&& final(store).model() == old(store).model().insert(
                    final(self).session@.id,
                    final(self).session@,
                )
                &&& (match c {
                    None => None::<Seq<char>>,
                    Some(cv) => Some(cv@),
                }) == old(self).session.cookie_opt()
            },
            r matches Err(e) ==> {
                &&& e == StoreError::BackendUnavailable
                &&& final(self).current_user == old(self).current_user
                &&& (final(store).model() == old(store).model() || final(store).model() == old(
                    store,
                ).model().insert(final(self).session@.id, final(self).session@))
            },
    {
        let hex = user_id_hex(user.id.0);
        self.session.insert(auth_key().to_owned(), hex);
        proof {
            assert(self.session@.data.remove(auth_key_spec()) =~= old(
                self,
            ).session@.data.remove(auth_key_spec()));
        }
        let copy = self.session.duplicate();
        match store.store_session(copy) {
            Err(e) => Err(e),
            Ok(c) => {
                self.current_user = Some(user.duplicate());
                Ok(c)
            },
        }
    }

    /// Unbind the request's identity: clear the identity id from the
    /// payload and persist the now-anonymous session.
    pub fn logout<S: SessionBackend>(&mut self, store: &mut S) -> (r: Result<
        Option<String>,
        StoreError,
    >)
        requires
            old(self).session.wf(),
            old(store).inv(),
        ensures
            final(store).inv(),
            final(self).current_user is None,
            final(self).session.wf(),
            final(self).session@.id == old(self).session@.id,
            final(self).session@.expiry == old(self).session@.expiry,
            stored_user_id(final(self).session@.data) is None,
            final(self).session@.data == old(self).session@.data.remove(auth_key_spec()),
            final(self).session.cookie_opt() == old(self).session.cookie_opt(),
            r matches Err(e) ==> {
                &&& e == StoreError::BackendUnavailable
                &&& (final(store).model() == old(store).model() || final(store).model() == old(
                    store,
                ).model().insert(final(self).session@.id, final(self).session@))
            },
            r matches Ok(c) ==> final(store).model() == old(store).model().insert(
                final(self).session@.id,
                final(self).session@,
            ),
    {
        self.current_user = None;
        self.session.remove(auth_key());
        let copy = self.session.duplicate();
        store.store_session(copy)
    }
}

/// Resolve one request: decode the cookie, load the session, read the
/// bound identity id, and look the identity up. Every missing step
/// yields an anonymous context with a fresh session; only a backend
/// failure is an error.
pub fn authenticate<S: SessionBackend, I: IdentityBackend>(
    store: &S,
    users: &I,
    cookie_value: Option<&str>,
    now: i64,
) -> (r: Result<AuthContext, StoreError>)
    requires
        store.inv(),
        users.inv(),
    ensures
        r matches Err(e) ==> e == StoreError::BackendUnavailable,
        cookie_view(cookie_value) is None ==> r is Ok,
        (cookie_view(cookie_value) matches Some(c) && !cookie_accepts(c)) ==> r is Ok,
        r matches Ok(ctx) ==> {
            &&& ctx.session.wf()
            &&& (match ctx.current_user {
                Some(u) => bound_identity(
                    store.model(),
                    users.users(),
                    cookie_view(cookie_value),
                    now as int,
                ) == Some(u@),
                None => bound_identity(
                    store.model(),
                    users.users(),
                    cookie_view(cookie_value),
                    now as int,
                ) is None,
            })
            &&& (match loaded_session(store.model(), cookie_view(cookie_value), now as int) {
                Some(sm) => ctx.session@ == sm,
                None => ctx.session@.data == Map::<Seq<char>, Seq<char>>::empty()
                    && ctx.session@.expiry is None,
            })
        },
{
    match cookie_value {
        None => Ok(AuthContext::anonymous()),
        Some(cv) => match store.load_session(cv, now) {
            Err(e) => match e {
                StoreError::MalformedCookie => Ok(AuthContext::anonymous()),
                // A stored payload that fails to decode makes the session
                // unusable: treat the request as anonymous, not as failed.
                StoreError::CorruptSessionPayload => Ok(AuthContext::anonymous()),
                _ => Err(e),
            },
            Ok(None) => Ok(AuthContext::anonymous()),
            Ok(Some(rec)) => match user_id_of_session(&rec) {
                None => Ok(AuthContext { session: rec, current_user: None }),
                Some(uid) => match users.by_id(uid) {
                    Err(e) => Err(e),
                    Ok(found) => Ok(AuthContext { session: rec, current_user: found }),
                },
            },
        },
    }
}

/// The failure kinds of a credential login.
#[derive(Clone, Copy, Debug, PartialEq, Eq, Structural)]
pub enum LoginError {
    /// No identity carries this login.
    UnknownLogin,
    /// The identity exists but the password does not verify.
    WrongPassword,
    /// A storage round trip failed; retryable.
    Backend,
}

/// Log a request in by login and password: resolve the login, verify
/// the password against the stored one-way hash, and bind the identity
/// to the session.
pub fn login_with_password<S: SessionBackend, I: IdentityBackend>(
    ctx: &mut AuthContext,
    store: &mut S,
    users: &I,
    input: &LoginInput,
) -> (r: Result<(User, Option<String>), LoginError>)
    requires
        old(ctx).session.wf(),
        old(store).inv(),
        users.inv(),
    ensures
        final(store).inv(),
        r matches Err(e) && e == LoginError::UnknownLogin ==> find_by_login(
            users.users(),
            input.login@,
        ) is None,
        r matches Err(e) && e == LoginError::WrongPassword ==> (find_by_login(
            users.users(),
            input.login@,
        ) matches Some(um) && !crate::domain::user::argon2_verifies(
            input.password@,
            um.password_hash,
        )),
        r matches Ok(p) ==> {
            &&& find_by_login(users.users(), input.login@) == Some(p.0@)
            &&& crate::domain::user::argon2_verifies(input.password@, p.0@.password_hash)
            &&& final(ctx).session.wf()
            &&& stored_user_id(final(ctx).session@.data) == Some(p.0@.id as int)
            &&& (final(ctx).current_user matches Some(u) && u@ == p.0@)
            &&& final(store).model() == old(store).model().insert(
                final(ctx).session@.id,
                final(ctx).session@,
            )
        },
        r matches Err(e) && (e == LoginError::UnknownLogin || e == LoginError::WrongPassword)
            ==> {
            &&& final(store).model() == old(store).model()
            &&& *final(ctx) == *old(ctx)
        },
        r matches Err(e) && e == LoginError::Backend ==> (final(store).model() == old(
            store,
        ).model() || final(store).model() == old(store).model().insert(
            final(ctx).session@.id,
            final(ctx).session@,
        )),
{
    let found = match users.by_login(input.login.as_str()) {
        Err(e) => {
            return Err(LoginError::Backend);
        },
        Ok(f) => f,
    };
    let user = match found {
        None => {
            return Err(LoginError::UnknownLogin);
        },
        Some(u) => u,
    };
    if !user.verify_password(input.password.as_str()) {
        return Err(LoginError::WrongPassword);
    }
    match ctx.login(store, &user) {
        Err(e) => Err(LoginError::Backend),
        Ok(c) => Ok((user, c)),
    }
}

} // verus!
