//! Credentials: a plaintext password, its memory-hard salted hash, and
//! the identity record bound to a login.
//!
//! Hashing and verification go through the `argon2` crate; what the
//! library states about them is pinned to the name `argon2_verifies`,
//! the one-way check that a password matches an encoded hash. The hash
//! embeds its own algorithm parameters and salt, so verification never
//! depends on configuration outside the stored string.

use vstd::prelude::*;

verus! {

use crate::clock::unix_now;
use crate::entropy::random_u128;
use crate::text::str_eq;

/// Whether `argon2` verification of `password` against the encoded hash
/// `hash` succeeds. This is a function of the two arguments alone: the
/// encoded string carries the algorithm, parameters and salt, and a
/// malformed hash simply fails to verify.
pub uninterp spec fn argon2_verifies(password: Seq<char>, hash: Seq<char>) -> bool;

/// Relies on `argon2::Argon2::hash_password` (default parameters, fresh
/// random salt drawn from the system): on success the returned PHC
/// string verifies against the password it was computed from.
#[verifier::external_body]
fn argon2_hash(password: &str) -> (r: Result<String, String>)
    ensures
        r matches Ok(h) ==> argon2_verifies(password@, h@),
{
    match argon2::PasswordHasher::hash_password(&argon2::Argon2::default(), password.as_bytes()) {
        Ok(h) => Ok(h.to_string()),
        Err(e) => Err(e.to_string()),
    }
}

/// Relies on `argon2::Argon2::verify_password` on an encoded hash
/// string: deterministic in the password and the hash, true exactly when
/// the recomputed output matches; a hash that does not parse yields
/// `false`, never a panic.
#[verifier::external_body]
fn argon2_check(password: &str, hash: &str) -> (r: bool)
    ensures
        r == argon2_verifies(password@, hash@),
{
    <argon2::Argon2 as argon2::PasswordVerifier<str>>::verify_password(
        &argon2::Argon2::default(),
        password.as_bytes(),
        hash,
    ).is_ok()
}

/// A plaintext password, held only transiently on login or registration.
pub struct Password(pub String);

impl View for Password {
    type V = Seq<char>;

    open spec fn view(&self) -> Seq<char> {
        self.0@
    }
}

impl Password {
    /// Accept a candidate password. Every string is currently accepted;
    /// the check sits in one place should a password policy arrive.
    pub fn parse(value: &str) -> (r: Result<Self, String>)
        ensures
            r matches Ok(p) && p@ == value@,
    {
        Ok(Password(value.to_owned()))
    }

    /// Hash the password with a fresh random salt; the encoded result
    /// verifies against this password and embeds its own parameters.
    pub fn hash(&self) -> (r: Result<PasswordHash, String>)
        ensures
            r matches Ok(h) ==> argon2_verifies(self@, h@),
    {
        match argon2_hash(self.0.as_str()) {
            Ok(h) => Ok(PasswordHash(h)),
            Err(e) => Err(e),
        }
    }
}

/// An encoded, self-describing password hash (a PHC string).
#[derive(Debug)]
pub struct PasswordHash(pub String);

impl View for PasswordHash {
    type V = Seq<char>;

    open spec fn view(&self) -> Seq<char> {
        self.0@
    }
}

impl PasswordHash {
    pub fn as_str(&self) -> (r: &str)
        ensures
            r@ == self@,
    {
        self.0.as_str()
    }

    pub fn duplicate(&self) -> (r: Self)
        ensures
            r@ == self@,
    {
        PasswordHash(self.0.clone())
    }
}

impl From<String> for PasswordHash {
    /// A stored hash read back verbatim from the credential table.
    fn from(value: String) -> (r: Self) {
        PasswordHash(value)
    }
}

impl vstd::std_specs::convert::FromSpecImpl<String> for PasswordHash {
    open spec fn obeys_from_spec() -> bool {
        true
    }

    open spec fn from_spec(t: String) -> Self {
        PasswordHash(t)
    }
}

/// A stable identity key: the 128 bits of the identity's UUID.
#[derive(Clone, Copy, PartialEq, Eq, Structural, Debug)]
pub struct UserId(pub u128);

impl From<u128> for UserId {
    fn from(value: u128) -> (r: Self) {
        UserId(value)
    }
}

impl vstd::std_specs::convert::FromSpecImpl<u128> for UserId {
    open spec fn obeys_from_spec() -> bool {
        true
    }

    open spec fn from_spec(t: u128) -> Self {
        UserId(t)
    }
}

#[derive(Clone, Copy, PartialEq, Eq, Structural, Debug)]
pub enum UserRole {
    User,
    Admin,
}

impl UserRole {
    /// The stored text of a role, as the credential table keeps it.
    pub open spec fn as_str_spec(&self) -> Seq<char> {
        match self {
            UserRole::User => "user"@,
            UserRole::Admin => "admin"@,
        }
    }

    pub fn as_str(&self) -> (r: &'static str)
        ensures
            r@ == self.as_str_spec(),
    {
        match self {
            UserRole::User => "user",
            UserRole::Admin => "admin",
        }
    }

    /// Read a role back from its stored text. Any other text would be
    /// data corruption, so the caller must have ruled it out.
    pub fn from(value: String) -> (r: Self)
        requires
            value@ == "user"@ || value@ == "admin"@,
        ensures
            value@ == "user"@ ==> r == UserRole::User,
            value@ == "admin"@ ==> r == UserRole::Admin,
    {
        proof {
            reveal_strlit("user");
            reveal_strlit("admin");
        }
        if str_eq(value.as_str(), "user") {
            proof {
                assert(value@ == "user"@);
                assert("user"@.len() == 4);
                assert("admin"@.len() == 5);
                assert(value@ != "admin"@);
            }
            UserRole::User
        } else {
            proof {
                assert(value@ != "user"@);
                assert(value@ == "admin"@);
            }
            UserRole::Admin
        }
    }
}

/// What an identity record is mathematically.
pub struct UserModel {
    pub id: u128,
    pub login: Seq<char>,
    pub password_hash: Seq<char>,
    pub role: UserRole,
    pub updated_at: int,
    pub created_at: int,
}

/// An identity: unique id, unique login, one-way password hash, role
/// and timestamps.
#[derive(Debug)]
pub struct User {
    pub id: UserId,
    pub password_hash: PasswordHash,
    pub role: UserRole,
    pub login: String,
    pub updated_at: i64,
    pub created_at: i64,
}

impl View for User {
    type V = UserModel;

    open spec fn view(&self) -> UserModel {
        UserModel {
            id: self.id.0,
            login: self.login@,
            password_hash: self.password_hash@,
            role: self.role,
            updated_at: self.updated_at as int,
            created_at: self.created_at as int,
        }
    }
}

impl User {
    /// A new identity for `login`: fresh random id, the password folded
    /// into a salted hash (never stored in the clear), role `User`, and
    /// both timestamps set from one reading of the clock.
    pub fn new(login: &str, password: Password) -> (r: Result<Self, String>)
        ensures
            r matches Ok(u) ==> {
                &&& u.login@ == login@
                &&& u.role == UserRole::User
                &&& argon2_verifies(password@, u.password_hash@)
                &&& u.created_at == u.updated_at
            },
    {
        let hash = match password.hash() {
            Ok(h) => h,
            Err(e) => {
                return Err(e);
            },
        };
        let stamp = unix_now();
        Ok(User {
            id: UserId(random_u128()),
            login: login.to_owned(),
            password_hash: hash,
            role: UserRole::User,
            updated_at: stamp,
            created_at: stamp,
        })
    }

    /// One-way credential check: true exactly when `password` matches
    /// the stored hash. A malformed stored hash verifies as false.
    pub fn verify_password(&self, password: &str) -> (r: bool)
        ensures
            r == argon2_verifies(password@, self.password_hash@),
    {
        argon2_check(password, self.password_hash.as_str())
    }

    pub fn get_id(&self) -> (r: UserId)
        ensures
            r == self.id,
    {
        self.id
    }

    pub fn get_password_hash(&self) -> (r: String)
        ensures
            r@ == self@.password_hash,
    {
        self.password_hash.0.clone()
    }

    pub fn get_role(&self) -> (r: Option<UserRole>)
        ensures
            r == Some(self.role),
    {
        Some(self.role)
    }

    /// An explicit copy with the same abstract state.
    pub fn duplicate(&self) -> (r: Self)
        ensures
            r@ == self@,
    {
        User {
            id: self.id,
            password_hash: self.password_hash.duplicate(),
            role: self.role,
            login: self.login.clone(),
            updated_at: self.updated_at,
            created_at: self.created_at,
        }
    }
}

} // verus!
