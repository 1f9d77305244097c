//! Durable, expiry-aware sessions bound to verified credentials.
//!
//! The core of the crate is the session subsystem: `session` holds the
//! data model of one stored session, `cookie` the encoding that
//! references it from outside the process, and `session_store` the keyed
//! store contract with its in-memory backend and the laws the store
//! obeys under concurrent writers. `identity` resolves stable identities
//! by key, `domain::user` hashes and verifies passwords, and `auth`
//! composes all of it into the per-request binder. `routes` carries the
//! decisions of the login, registration and catalog requests; `sql`
//! pins the statements the relational backend issues.

pub mod assoc;
pub mod auth;
pub mod clock;
pub mod cookie;
pub mod domain;
pub mod entropy;
pub mod hexnum;
pub mod identity;
pub mod record_text;
pub mod routes;
pub mod session;
pub mod session_store;
pub mod sql;
pub mod text;

use vstd::prelude::*;

verus! {

/// Kinds of failure in the session and credential core.
///
/// Nothing here is fatal: a malformed cookie or a corrupt payload degrades to
/// "treat as unauthenticated", and a backend failure is surfaced as retryable.
#[derive(Clone, Copy, Debug, PartialEq, Eq, Structural)]
pub enum StoreError {
    /// The cookie value could not be decoded into a session id.
    MalformedCookie,
    /// A storage round trip failed; the caller may retry.
    BackendUnavailable,
    /// A stored session payload could not be decoded.
    CorruptSessionPayload,
}

impl StoreError {
    /// A short description of the error, for logging at the edges.
    pub fn describe(&self) -> (r: &'static str)
        ensures
            r@ == self.describe_spec(),
    {
        match self {
            StoreError::MalformedCookie => "malformed session cookie",
            StoreError::BackendUnavailable => "session backend unavailable",
            StoreError::CorruptSessionPayload => "corrupt session payload",
        }
    }

    pub open spec fn describe_spec(&self) -> Seq<char> {
        match self {
            StoreError::MalformedCookie => "malformed session cookie"@,
            StoreError::BackendUnavailable => "session backend unavailable"@,
            StoreError::CorruptSessionPayload => "corrupt session payload"@,
        }
    }
}

} // verus!
