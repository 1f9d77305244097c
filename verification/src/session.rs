//! The data model for one stored session: an opaque random id, an
//! optional expiry, an ordered key/value payload, plus the fresh cookie
//! value (present only until the record is first persisted) and the
//! dirty flag that lets callers elide redundant writes.

use vstd::prelude::*;

verus! {

use crate::assoc::{
    keyed_map,
    keys_distinct,
    lemma_keyed_map_absent,
    lemma_keyed_map_congruence,
    lemma_keyed_map_index,
    lemma_keyed_map_remove,
    lemma_keyed_map_update,
};
use crate::cookie::{cookie_accepts, cookie_id, encode_cookie, generate_session_id, wf_session_id};
use crate::text::str_eq;

/// What a stored session is mathematically: the id, the expiry instant
/// (seconds; absent means "never expires") and the payload map.
pub struct SessionModel {
    pub id: Seq<char>,
    pub expiry: Option<int>,
    pub data: Map<Seq<char>, Seq<char>>,
}

/// Whether a row with the given expiry is logically alive at `now`.
/// An expired row is dead without being deleted: lazy expiry.
pub open spec fn live_spec(expiry: Option<int>, now: int) -> bool {
    match expiry {
        None => true,
        Some(t) => t > now,
    }
}

pub open spec fn entry_key_fn() -> spec_fn((String, String)) -> Seq<char> {
    |p: (String, String)| p.0@
}

pub open spec fn entry_value_fn() -> spec_fn((String, String)) -> Seq<char> {
    |p: (String, String)| p.1@
}

/// The payload map a vector of entries stands for.
pub open spec fn payload_map(entries: Seq<(String, String)>) -> Map<Seq<char>, Seq<char>> {
    keyed_map(entries, entry_key_fn(), entry_value_fn())
}

/// No two payload entries share a key.
pub open spec fn payload_keys_distinct(entries: Seq<(String, String)>) -> bool {
    keys_distinct(entries, entry_key_fn())
}

#[derive(Debug)]
pub struct SessionRecord {
    pub id: String,
    pub expiry: Option<i64>,
    pub entries: Vec<(String, String)>,
    pub cookie_value: Option<String>,
    pub data_changed: bool,
}

impl View for SessionRecord {
    type V = SessionModel;

    open spec fn view(&self) -> SessionModel {
        SessionModel {
            id: self.id@,
            expiry: match self.expiry {
                None => None,
                Some(t) => Some(t as int),
            },
            data: payload_map(self.entries@),
        }
    }
}

impl SessionRecord {
    /// Internal consistency: the id is a well-formed session id, payload
    /// keys are unique, and a pending cookie value, if any, encodes this
    /// very id.
    pub open spec fn wf(&self) -> bool {
        &&& wf_session_id(self.id@)
        &&& payload_keys_distinct(self.entries@)
        &&& match self.cookie_value {
            None => true,
            Some(c) => cookie_accepts(c@) && cookie_id(c@) == self.id@,
        }
    }

    /// The pending cookie value, abstractly.
    pub open spec fn cookie_opt(&self) -> Option<Seq<char>> {
        match self.cookie_value {
            None => None,
            Some(c) => Some(c@),
        }
    }

    /// A fresh anonymous session: random id, no expiry, empty payload,
    /// and a cookie value that decodes back to the new id.
    pub fn new() -> (s: Self)
        ensures
            s.wf(),
            s@.data == Map::<Seq<char>, Seq<char>>::empty(),
            s@.expiry is None,
            !s.data_changed,
            s.cookie_opt() matches Some(c) && cookie_accepts(c) && cookie_id(c) == s@.id,
    {
        let id = generate_session_id();
        let cookie = encode_cookie(id.as_str());
        SessionRecord {
            id,
            expiry: None,
            entries: Vec::new(),
            cookie_value: Some(cookie),
            data_changed: false,
        }
    }

    pub fn id(&self) -> (r: &str)
        ensures
            r@ == self@.id,
    {
        self.id.as_str()
    }

    /// Look a key up in the payload.
    pub fn get(&self, key: &str) -> (r: Option<&String>)
        requires
            self.wf(),
        ensures
            match r {
                Some(v) => self@.data.contains_key(key@) && v@ == self@.data[key@],
                None => !self@.data.contains_key(key@),
            },
    {
        let mut i: usize = 0;
        while i < self.entries.len()
            invariant
                self.wf(),
                i <= self.entries@.len(),
                forall|k: int| 0 <= k < i ==> (#[trigger] self.entries@[k]).0@ != key@,
            decreases self.entries@.len() - i,
        {
            if str_eq(self.entries[i].0.as_str(), key) {
                proof {
                    lemma_keyed_map_index(self.entries@, entry_key_fn(), entry_value_fn(), i as int);
                }
                return Some(&self.entries[i].1);
            }
            i = i + 1;
        }
        proof {
            lemma_keyed_map_absent(self.entries@, entry_key_fn(), entry_value_fn(), key@);
        }
        None
    }

    /// Write a key into the payload, replacing any previous value, and
    /// mark the payload dirty.
    pub fn insert(&mut self, key: String, value: String)
        requires
            old(self).wf(),
        ensures
            final(self).wf(),
            final(self)@.id == old(self)@.id,
            final(self)@.expiry == old(self)@.expiry,
            final(self)@.data == old(self)@.data.insert(key@, value@),
            final(self).cookie_opt() == old(self).cookie_opt(),
            final(self).data_changed,
    {
        let n = self.entries.len();
        let mut i: usize = 0;
        while i < n
            invariant
                self == old(self),
                n == self.entries@.len(),
                old(self).wf(),
                i <= n,
                forall|k: int| 0 <= k < i ==> (#[trigger] self.entries@[k]).0@ != key@,
            decreases n - i,
        {
            if str_eq(self.entries[i].0.as_str(), key.as_str()) {
                proof {
                    assert(payload_keys_distinct(self.entries@));
                    assert(entry_key_fn()((key, value)) == key@);
                    assert(entry_key_fn()(self.entries@[i as int]) == self.entries@[i as int].0@);
                    lemma_keyed_map_update(
                        self.entries@,
                        entry_key_fn(),
                        entry_value_fn(),
                        i as int,
                        (key, value),
                    );
                }
                self.entries[i] = (key, value);
                self.data_changed = true;
                return ;
            }
            i = i + 1;
        }
        proof {
            assert(payload_keys_distinct(self.entries@));
            lemma_keyed_map_absent(self.entries@, entry_key_fn(), entry_value_fn(), key@);
            assert(self.entries@.push((key, value)).drop_last() =~= self.entries@);
        }
        self.entries.push((key, value));
        self.data_changed = true;
    }

    /// Remove a key from the payload; marks the payload dirty only when
    /// the key was present.
    pub fn remove(&mut self, key: &str)
        requires
            old(self).wf(),
        ensures
            final(self).wf(),
            final(self)@.id == old(self)@.id,
            final(self)@.expiry == old(self)@.expiry,
            final(self)@.data == old(self)@.data.remove(key@),
            final(self).cookie_opt() == old(self).cookie_opt(),
            final(self).data_changed == (old(self).data_changed || old(self)@.data.contains_key(
                key@,
            )),
    {
        let n = self.entries.len();
        let mut i: usize = 0;
        while i < n
            invariant
                self == old(self),
                n == self.entries@.len(),
                old(self).wf(),
                i <= n,
                forall|k: int| 0 <= k < i ==> (#[trigger] self.entries@[k]).0@ != key@,
            decreases n - i,
        {
            if str_eq(self.entries[i].0.as_str(), key) {
                proof {
                    assert(payload_keys_distinct(self.entries@));
                    lemma_keyed_map_index(self.entries@, entry_key_fn(), entry_value_fn(), i as int);
                    lemma_keyed_map_remove(self.entries@, entry_key_fn(), entry_value_fn(), i as int);
                }
                self.entries.remove(i);
                self.data_changed = true;
                return ;
            }
            i = i + 1;
        }
        proof {
            assert(payload_keys_distinct(self.entries@));
            lemma_keyed_map_absent(self.entries@, entry_key_fn(), entry_value_fn(), key@);
            assert(old(self)@.data.remove(key@) =~= old(self)@.data);
        }
    }

    /// Set the session to expire `secs` seconds after `now`.
    pub fn expire_in(&mut self, now: i64, secs: u32)
        requires
            old(self).wf(),
            now + secs <= i64::MAX,
        ensures
            final(self).wf(),
            final(self)@.id == old(self)@.id,
            final(self)@.data == old(self)@.data,
            final(self)@.expiry == Some((now + secs) as int),
            final(self).cookie_opt() == old(self).cookie_opt(),
            final(self).data_changed == old(self).data_changed,
    {
        self.expiry = Some(now + secs as i64);
    }

    /// Set or clear the expiry instant directly.
    pub fn set_expiry(&mut self, when: Option<i64>)
        requires
            old(self).wf(),
        ensures
            final(self).wf(),
            final(self)@.id == old(self)@.id,
            final(self)@.data == old(self)@.data,
            final(self)@.expiry == (match when {
                None => None::<int>,
                Some(t) => Some(t as int),
            }),
            final(self).cookie_opt() == old(self).cookie_opt(),
            final(self).data_changed == old(self).data_changed,
    {
        self.expiry = when;
    }

    pub fn expiry(&self) -> (r: Option<i64>)
        ensures
            r is None <==> self@.expiry is None,
            r matches Some(t) ==> self@.expiry == Some(t as int),
    {
        self.expiry
    }

    /// Whether the session is logically dead at `now`.
    pub fn is_expired(&self, now: i64) -> (r: bool)
        ensures
            r == !live_spec(self@.expiry, now as int),
    {
        match self.expiry {
            None => false,
            Some(t) => t <= now,
        }
    }

    /// The session if it is still alive at `now`, and nothing otherwise.
    pub fn validate(self, now: i64) -> (r: Option<Self>)
        ensures
            live_spec(self@.expiry, now as int) ==> (r matches Some(s) && s == self),
            !live_spec(self@.expiry, now as int) ==> r is None,
    {
        if self.is_expired(now) {
            None
        } else {
            Some(self)
        }
    }

    pub fn data_changed(&self) -> (r: bool)
        ensures
            r == self.data_changed,
    {
        self.data_changed
    }

    pub fn reset_data_changed(&mut self)
        requires
            old(self).wf(),
        ensures
            final(self).wf(),
            final(self)@ == old(self)@,
            final(self).cookie_opt() == old(self).cookie_opt(),
            !final(self).data_changed,
    {
        self.data_changed = false;
    }

    /// Surrender the pending cookie value, leaving none behind.
    pub fn take_cookie_value(&mut self) -> (r: Option<String>)
        requires
            old(self).wf(),
        ensures
            final(self).wf(),
            final(self)@ == old(self)@,
            final(self).data_changed == old(self).data_changed,
            final(self).cookie_opt() is None,
            (match r {
                None => None::<Seq<char>>,
                Some(c) => Some(c@),
            }) == old(self).cookie_opt(),
    {
        self.cookie_value.take()
    }

    /// An explicit copy whose abstract state is the same; written out so
    /// that the copy's relation to the original is part of the contract.
    pub fn duplicate(&self) -> (r: Self)
        requires
            self.wf(),
        ensures
            r.wf(),
            r@ == self@,
            r.cookie_opt() == self.cookie_opt(),
            r.data_changed == self.data_changed,
    {
        let mut entries: Vec<(String, String)> = Vec::new();
        let mut i: usize = 0;
        while i < self.entries.len()
            invariant
                self.wf(),
                i <= self.entries@.len(),
                entries@.len() == i,
                forall|k: int|
                    0 <= k < i ==> (#[trigger] entries@[k]).0@ == self.entries@[k].0@
                        && entries@[k].1@ == self.entries@[k].1@,
            decreases self.entries@.len() - i,
        {
            let pair = (self.entries[i].0.clone(), self.entries[i].1.clone());
            entries.push(pair);
            i = i + 1;
        }
        proof {
            lemma_keyed_map_congruence(
                entries@,
                self.entries@,
                entry_key_fn(),
                entry_value_fn(),
            );
            assert(payload_keys_distinct(entries@));
        }
        let cookie_value = match &self.cookie_value {
            None => None,
            Some(c) => Some(c.clone()),
        };
        SessionRecord {
            id: self.id.clone(),
            expiry: self.expiry,
            entries,
            cookie_value,
            data_changed: self.data_changed,
        }
    }

    /// Consume the record, yielding the pending cookie value if the
    /// record was never persisted before.
    pub fn into_cookie_value(self) -> (r: Option<String>)
        ensures
            (match r {
                None => None::<Seq<char>>,
                Some(c) => Some(c@),
            }) == self.cookie_opt(),
    {
        self.cookie_value
    }
}

} // verus!
