//! The durable keyed session store.
//!
//! `SessionBackend` is the one contract both backends answer to: the
//! production relational implementation (assembled outside the library
//! around a connection pool) and `MemoryStore`, the injectable in-memory
//! variant used for tests and non-durable mode. The contract is stated
//! over a map from session ids to `SessionModel`s; consistency under
//! concurrent writers rests on each operation being one atomic step on
//! that map, which the laws at the bottom of this file spell out.

use vstd::prelude::*;

verus! {

use crate::StoreError;
use crate::assoc::{
    keyed_map,
    keys_distinct,
    lemma_keyed_map_absent,
    lemma_keyed_map_index,
    lemma_keyed_map_len,
    lemma_keyed_map_remove,
    lemma_keyed_map_update,
};
use crate::cookie::{cookie_accepts, cookie_id};
use crate::session::{SessionModel, SessionRecord, live_spec};
use crate::text::str_eq;

pub open spec fn row_key_fn() -> spec_fn(SessionRecord) -> Seq<char> {
    |r: SessionRecord| r.id@
}

pub open spec fn row_value_fn() -> spec_fn(SessionRecord) -> SessionModel {
    |r: SessionRecord| r@
}

/// The map a vector of stored rows stands for.
pub open spec fn rows_map(rows: Seq<SessionRecord>) -> Map<Seq<char>, SessionModel> {
    keyed_map(rows, row_key_fn(), row_value_fn())
}

pub open spec fn row_ids_distinct(rows: Seq<SessionRecord>) -> bool {
    keys_distinct(rows, row_key_fn())
}

/// What a load observes: the stored record while it is present and
/// alive, and nothing otherwise. An expired row is invisible here but
/// stays in the map until an explicit destroy or clear.
pub open spec fn load_spec(
    m: Map<Seq<char>, SessionModel>,
    id: Seq<char>,
    now: int,
) -> Option<SessionModel> {
    if m.contains_key(id) && live_spec(m[id].expiry, now) {
        Some(m[id])
    } else {
        None
    }
}

/// The store contract, shared by the relational backend and the
/// in-memory test double. Every operation is a single atomic step on
/// `model`; a backend failure is surfaced as `BackendUnavailable` and is
/// retryable.
pub trait SessionBackend: Sized {
    /// The rows the backend currently holds, keyed by session id.
    open spec fn model(&self) -> Map<Seq<char>, SessionModel> {
        Map::empty()
    }

    /// The backend's internal consistency.
    open spec fn inv(&self) -> bool {
        true
    }

    /// Ensure the backing table exists. Idempotent and safe on every
    /// process start: the stored rows are untouched.
    fn migrate(&self) -> (r: Result<(), StoreError>)
        requires
            self.inv(),
        ensures
            r matches Err(e) ==> e == StoreError::BackendUnavailable,
    ;

    /// Decode a cookie value and look the session up, filtering rows
    /// that have expired by `now`. A read never causes a write: `self`
    /// is shared, and an expired row is left in place. A stored row
    /// whose payload cannot be decoded is surfaced as
    /// `CorruptSessionPayload`; such a row holds no session, so the
    /// model maps its id to nothing.
    fn load_session(&self, cookie_value: &str, now: i64) -> (r: Result<
        Option<SessionRecord>,
        StoreError,
    >)
        requires
            self.inv(),
        ensures
            !cookie_accepts(cookie_value@) ==> r == Err::<Option<SessionRecord>, StoreError>(
                StoreError::MalformedCookie,
            ),
            cookie_accepts(cookie_value@) ==> match r {
                Ok(found) => match found {
                    Some(rec) => {
                        &&& load_spec(self.model(), cookie_id(cookie_value@), now as int)
                            == Some(rec@)
                        &&& rec@.id == cookie_id(cookie_value@)
                        &&& rec.wf()
                        &&& rec.cookie_opt() is None
                        &&& !rec.data_changed
                    },
                    None => load_spec(self.model(), cookie_id(cookie_value@), now as int) is None,
                },
                Err(e) => e == StoreError::BackendUnavailable || (e
                    == StoreError::CorruptSessionPayload && load_spec(
                    self.model(),
                    cookie_id(cookie_value@),
                    now as int,
                ) is None),
            },
    ;

    /// Atomic upsert: afterwards the store holds exactly this record
    /// under its id, whatever was there before. Returns the fresh cookie
    /// value when the record still carried one, and nothing when only an
    /// internal touch occurred.
    fn store_session(&mut self, session: SessionRecord) -> (r: Result<Option<String>, StoreError>)
        requires
            old(self).inv(),
            session.wf(),
        ensures
            final(self).inv(),
            match r {
                Ok(c) => {
                    &&& final(self).model() == old(self).model().insert(session@.id, session@)
                    &&& (match c {
                        None => None::<Seq<char>>,
                        Some(cv) => Some(cv@),
                    }) == session.cookie_opt()
                },
                Err(e) => {
                    &&& e == StoreError::BackendUnavailable
                    &&& (final(self).model() == old(self).model() || final(self).model() == old(
                        self,
                    ).model().insert(session@.id, session@))
                },
            },
    ;

    /// Delete the row; idempotent, so destroying an absent id succeeds.
    fn destroy_session(&mut self, id: &str) -> (r: Result<(), StoreError>)
        requires
            old(self).inv(),
        ensures
            final(self).inv(),
            match r {
                Ok(u) => final(self).model() == old(self).model().remove(id@),
                Err(e) => {
                    &&& e == StoreError::BackendUnavailable
                    &&& (final(self).model() == old(self).model() || final(self).model() == old(
                        self,
                    ).model().remove(id@))
                },
            },
    ;

    /// Remove every session; administrative only.
    fn clear_store(&mut self) -> (r: Result<(), StoreError>)
        requires
            old(self).inv(),
        ensures
            final(self).inv(),
            match r {
                Ok(u) => final(self).model() == Map::<Seq<char>, SessionModel>::empty(),
                Err(e) => {
                    &&& e == StoreError::BackendUnavailable
                    &&& (final(self).model() == old(self).model() || final(self).model() == Map::<
                        Seq<char>,
                        SessionModel,
                    >::empty())
                },
            },
    ;

    /// How many rows the store holds, dead ones included.
    fn count(&self) -> (r: Result<usize, StoreError>)
        requires
            self.inv(),
        ensures
            match r {
                Ok(n) => n == self.model().dom().len(),
                Err(e) => e == StoreError::BackendUnavailable,
            },
    ;
}

/// The injectable in-memory backend: a map keyed by session id, held as
/// a vector of rows with distinct ids. Stored rows are sanitized the way
/// a round trip through the relational backend would leave them: no
/// pending cookie value and a clean dirty flag.
pub struct MemoryStore {
    pub rows: Vec<SessionRecord>,
}

impl MemoryStore {
    pub open spec fn wf(&self) -> bool {
        &&& row_ids_distinct(self.rows@)
        &&& forall|i: int|
            0 <= i < self.rows@.len() ==> {
                &&& (#[trigger] self.rows@[i]).wf()
                &&& self.rows@[i].cookie_opt() is None
                &&& !self.rows@[i].data_changed
            }
    }

    pub fn new() -> (s: Self)
        ensures
            s.inv(),
            s.model() == Map::<Seq<char>, SessionModel>::empty(),
    {
        MemoryStore { rows: Vec::new() }
    }

    /// The index of the row holding `id`, if any.
    fn find(&self, id: &str) -> (r: Option<usize>)
        requires
            self.wf(),
        ensures
            match r {
                Some(i) => i < self.rows@.len() && self.rows@[i as int].id@ == id@
                    && rows_map(self.rows@).contains_key(id@) && rows_map(self.rows@)[id@]
                    == self.rows@[i as int]@,
                None => !rows_map(self.rows@).contains_key(id@),
            },
    {
        let mut i: usize = 0;
        while i < self.rows.len()
            invariant
                self.wf(),
                i <= self.rows@.len(),
                forall|k: int| 0 <= k < i ==> (#[trigger] self.rows@[k]).id@ != id@,
            decreases self.rows@.len() - i,
        {
            if str_eq(self.rows[i].id.as_str(), id) {
                proof {
                    assert(row_ids_distinct(self.rows@));
                    lemma_keyed_map_index(self.rows@, row_key_fn(), row_value_fn(), i as int);
                }
                return Some(i);
            }
            i = i + 1;
        }
        proof {
            lemma_keyed_map_absent(self.rows@, row_key_fn(), row_value_fn(), id@);
        }
        None
    }
}

impl SessionBackend for MemoryStore {
    open spec fn model(&self) -> Map<Seq<char>, SessionModel> {
        rows_map(self.rows@)
    }

    open spec fn inv(&self) -> bool {
        self.wf()
    }

    fn migrate(&self) -> (r: Result<(), StoreError>) {
        // The in-memory table exists from construction; nothing to set up.
        Ok(())
    }

    fn load_session(&self, cookie_value: &str, now: i64) -> (r: Result<
        Option<SessionRecord>,
        StoreError,
    >) {
        let id = match crate::cookie::decode_cookie(cookie_value) {
            Err(e) => {
                return Err(e);
            },
            Ok(id) => id,
        };
        match self.find(id.as_str()) {
            None => Ok(None),
            Some(i) => {
                if self.rows[i].is_expired(now) {
                    Ok(None)
                } else {
                    Ok(Some(self.rows[i].duplicate()))
                }
            },
        }
    }

    fn store_session(&mut self, session: SessionRecord) -> (r: Result<Option<String>, StoreError>) {
        let mut session = session;
        let cookie = session.take_cookie_value();
        session.reset_data_changed();
        match self.find(session.id()) {
            Some(i) => {
                proof {
                    assert(row_ids_distinct(self.rows@));
                    lemma_keyed_map_update(
                        self.rows@,
                        row_key_fn(),
                        row_value_fn(),
                        i as int,
                        session,
                    );
                }
                self.rows[i] = session;
            },
            None => {
                proof {
                    assert forall|k: int|
                        0 <= k < self.rows@.len() implies (#[trigger] self.rows@[k]).id@
                        != session.id@ by {
                        if self.rows@[k].id@ == session.id@ {
                            lemma_keyed_map_index(self.rows@, row_key_fn(), row_value_fn(), k);
                        }
                    }
                    assert(self.rows@.push(session).drop_last() =~= self.rows@);
                }
                self.rows.push(session);
            },
        }
        Ok(cookie)
    }

    fn destroy_session(&mut self, id: &str) -> (r: Result<(), StoreError>) {
        match self.find(id) {
            Some(i) => {
                proof {
                    assert(row_ids_distinct(self.rows@));
                    lemma_keyed_map_remove(self.rows@, row_key_fn(), row_value_fn(), i as int);
                }
                self.rows.remove(i);
            },
            None => {
                proof {
                    assert(rows_map(self.rows@).remove(id@) =~= rows_map(self.rows@));
                }
            },
        }
        Ok(())
    }

    fn clear_store(&mut self) -> (r: Result<(), StoreError>) {
        self.rows = Vec::new();
        Ok(())
    }

    fn count(&self) -> (r: Result<usize, StoreError>) {
        proof {
            assert(row_ids_distinct(self.rows@));
            lemma_keyed_map_len(self.rows@, row_key_fn(), row_value_fn());
        }
        Ok(self.rows.len())
    }
}

/// Law: after `store(id, P, E)`, a `load(id)` at `now` returns P while E
/// is absent or still in the future, and returns nothing once E has
/// passed — although the row itself is still present.
pub proof fn lemma_store_then_load(m: Map<Seq<char>, SessionModel>, rec: SessionModel, now: int)
    ensures
        load_spec(m.insert(rec.id, rec), rec.id, now) == (if live_spec(rec.expiry, now) {
            Some(rec)
        } else {
            None::<SessionModel>
        }),
        m.insert(rec.id, rec).contains_key(rec.id),
{
}

/// Law: `destroy(id)` is idempotent. Its contract holds for every store
/// state, so a second destroy succeeds and is a no-op on the map.
pub proof fn lemma_destroy_idempotent(m: Map<Seq<char>, SessionModel>, id: Seq<char>)
    ensures
        m.remove(id).remove(id) == m.remove(id),
{
    assert(m.remove(id).remove(id) =~= m.remove(id));
}

/// Law: two concurrent `store()` calls for one id serialize into two
/// atomic upserts in some order; either way exactly one row for that id
/// remains, equal to whichever write came second — one of the two
/// writes, never a blend of both.
pub proof fn lemma_concurrent_stores_one_row(
    m: Map<Seq<char>, SessionModel>,
    a: SessionModel,
    b: SessionModel,
)
    requires
        a.id == b.id,
    ensures
        m.insert(a.id, a).insert(b.id, b) == m.insert(b.id, b),
        m.insert(a.id, a).insert(b.id, b)[a.id] == b,
        m.insert(b.id, b).insert(a.id, a) == m.insert(a.id, a),
        m.insert(b.id, b).insert(a.id, a)[a.id] == a,
        m.insert(a.id, a).insert(b.id, b).dom() == m.dom().insert(a.id),
        m.insert(b.id, b).insert(a.id, a).dom() == m.dom().insert(a.id),
{
    assert(m.insert(a.id, a).insert(b.id, b) =~= m.insert(b.id, b));
    assert(m.insert(b.id, b).insert(a.id, a) =~= m.insert(a.id, a));
    assert(m.insert(a.id, a).insert(b.id, b).dom() =~= m.dom().insert(a.id));
    assert(m.insert(b.id, b).insert(a.id, a).dom() =~= m.dom().insert(a.id));
}

} // verus!
