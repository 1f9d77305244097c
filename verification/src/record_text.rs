//! The opaque text a stored session row's `session` column holds.
//!
//! The format is the library's own: the session id, an expiry tag, and
//! the payload entries, each length-prefixed with a fixed-width
//! hexadecimal numeral. `ser_record` pins the exact characters written;
//! `des_record` pins what any text decodes to, failing closed on
//! anything else; and `lemma_des_ser_record` is the round-trip law: a
//! serialized record decodes back to exactly its own fields.

use vstd::prelude::*;

verus! {

use crate::cookie::wf_session_id;
use crate::hexnum::{
    all_hex,
    hex_of,
    hex_value_of,
    lemma_hex_of_value,
    lemma_pow16_16,
    pow16,
    u128_to_hex,
};
use crate::session::{entry_key_fn, entry_value_fn, payload_map, SessionRecord};
use crate::text::{chars_vec, string_from_chars, subvec};
use crate::StoreError;
use crate::hexnum::{is_all_hex, lemma_hex_value_bound, u128_from_hex};
use vstd::string::StrSliceExecFns;

/// One payload entry, abstractly: key and value character sequences.
pub open spec fn entry_views(p: (String, String)) -> (Seq<char>, Seq<char>) {
    (p.0@, p.1@)
}

pub open spec fn entries_views(s: Seq<(String, String)>) -> Seq<(Seq<char>, Seq<char>)> {
    s.map_values(|p: (String, String)| entry_views(p))
}

/// The text of the expiry: `n` for none, or `e` and the instant's 64
/// bits as 16 hexadecimal digits.
pub open spec fn ser_expiry(e: Option<i64>) -> Seq<char> {
    match e {
        None => seq!['n'],
        Some(t) => seq!['e'] + hex_of((t as u64) as int, 16),
    }
}

/// One entry: the key and the value, each preceded by its character
/// count as 16 hexadecimal digits.
pub open spec fn ser_entry(p: (Seq<char>, Seq<char>)) -> Seq<char> {
    hex_of(p.0.len() as int, 16) + p.0 + hex_of(p.1.len() as int, 16) + p.1
}

pub open spec fn ser_entries(ps: Seq<(Seq<char>, Seq<char>)>) -> Seq<char>
    decreases ps.len(),
{
    if ps.len() == 0 {
        Seq::empty()
    } else {
        ser_entry(ps[0]) + ser_entries(ps.drop_first())
    }
}

/// The whole row text: id, expiry, entry count, entries.
pub open spec fn ser_record(
    id: Seq<char>,
    expiry: Option<i64>,
    ps: Seq<(Seq<char>, Seq<char>)>,
) -> Seq<char> {
    id + ser_expiry(expiry) + hex_of(ps.len() as int, 16) + ser_entries(ps)
}

/// Whether an entry's key and value fit their 16-digit length prefixes.
pub open spec fn entry_fits(p: (Seq<char>, Seq<char>)) -> bool {
    p.0.len() < pow16(16) && p.1.len() < pow16(16)
}

pub open spec fn entries_fit(ps: Seq<(Seq<char>, Seq<char>)>) -> bool {
    ps.len() < pow16(16) && forall|i: int| 0 <= i < ps.len() ==> entry_fits(#[trigger] ps[i])
}

/// Parse exactly `k` length-prefixed entries, consuming all of `s`.
pub open spec fn des_entries(s: Seq<char>, k: nat) -> Option<Seq<(Seq<char>, Seq<char>)>>
    decreases k,
{
    if k == 0 {
        if s.len() == 0 {
            Some(Seq::empty())
        } else {
            None
        }
    } else if s.len() < 16 || !all_hex(s.subrange(0, 16)) {
        None
    } else {
        let klen = hex_value_of(s.subrange(0, 16));
        if s.len() < 16 + klen {
            None
        } else {
            let key = s.subrange(16, 16 + klen);
            let r1 = s.subrange(16 + klen, s.len() as int);
            if r1.len() < 16 || !all_hex(r1.subrange(0, 16)) {
                None
            } else {
                let vlen = hex_value_of(r1.subrange(0, 16));
                if r1.len() < 16 + vlen {
                    None
                } else {
                    let value = r1.subrange(16, 16 + vlen);
                    let r2 = r1.subrange(16 + vlen, r1.len() as int);
                    match des_entries(r2, (k - 1) as nat) {
                        None => None,
                        Some(t) => Some(seq![(key, value)] + t),
                    }
                }
            }
        }
    }
}

/// Parse the entry count and the entries that follow the expiry.
pub open spec fn des_tail(s: Seq<char>) -> Option<Seq<(Seq<char>, Seq<char>)>> {
    if s.len() < 16 || !all_hex(s.subrange(0, 16)) {
        None
    } else {
        des_entries(s.subrange(16, s.len() as int), hex_value_of(s.subrange(0, 16)) as nat)
    }
}

/// Parse a whole row text. Anything that is not exactly a serialized
/// record yields nothing.
pub open spec fn des_record(s: Seq<char>) -> Option<
    (Seq<char>, Option<i64>, Seq<(Seq<char>, Seq<char>)>),
> {
    if s.len() < 33 || !wf_session_id(s.subrange(0, 32)) {
        None
    } else {
        let id = s.subrange(0, 32);
        if s[32] == 'n' {
            match des_tail(s.subrange(33, s.len() as int)) {
                None => None,
                Some(ps) => Some((id, None, ps)),
            }
        } else if s[32] == 'e' {
            if s.len() < 49 || !all_hex(s.subrange(33, 49)) {
                None
            } else {
                let t = (hex_value_of(s.subrange(33, 49)) as u64) as i64;
                match des_tail(s.subrange(49, s.len() as int)) {
                    None => None,
                    Some(ps) => Some((id, Some(t), ps)),
                }
            }
        } else {
            None
        }
    }
}

proof fn lemma_des_ser_entries(ps: Seq<(Seq<char>, Seq<char>)>)
    requires
        forall|i: int| 0 <= i < ps.len() ==> entry_fits(#[trigger] ps[i]),
    ensures
        des_entries(ser_entries(ps), ps.len()) == Some(ps),
    decreases ps.len(),
{
    if ps.len() == 0 {
    } else {
        let e = ps[0];
        let rest = ps.drop_first();
        let klen = e.0.len() as int;
        let vlen = e.1.len() as int;
        let kp = hex_of(klen, 16);
        let vp = hex_of(vlen, 16);
        lemma_hex_of_value(klen, 16);
        lemma_hex_of_value(vlen, 16);
        let s = ser_entries(ps);
        assert(s == ser_entry(e) + ser_entries(rest));
        let tail = ser_entries(rest);
        assert(s.len() == 32 + klen + vlen + tail.len());
        assert(s.subrange(0, 16) =~= kp);
        assert(s.subrange(16, 16 + klen) =~= e.0);
        let r1 = s.subrange(16 + klen, s.len() as int);
        assert(r1 =~= vp + e.1 + tail);
        assert(r1.subrange(0, 16) =~= vp);
        assert(r1.subrange(16, 16 + vlen) =~= e.1);
        let r2 = r1.subrange(16 + vlen, r1.len() as int);
        assert(r2 =~= tail);
        assert(forall|i: int| 0 <= i < rest.len() ==> entry_fits(#[trigger] rest[i]));
        lemma_des_ser_entries(rest);
        assert(des_entries(s, ps.len()) == Some(seq![(e.0, e.1)] + rest));
        assert(seq![(e.0, e.1)] + rest =~= ps);
    }
}

proof fn lemma_des_ser_tail(ps: Seq<(Seq<char>, Seq<char>)>)
    requires
        entries_fit(ps),
    ensures
        des_tail(hex_of(ps.len() as int, 16) + ser_entries(ps)) == Some(ps),
{
    let cp = hex_of(ps.len() as int, 16);
    lemma_hex_of_value(ps.len() as int, 16);
    let s = cp + ser_entries(ps);
    assert(s.subrange(0, 16) =~= cp);
    assert(s.subrange(16, s.len() as int) =~= ser_entries(ps));
    lemma_des_ser_entries(ps);
}

/// The round-trip law: a serialized record decodes back to exactly the
/// id, expiry and entries it was built from.
pub proof fn lemma_des_ser_record(
    id: Seq<char>,
    expiry: Option<i64>,
    ps: Seq<(Seq<char>, Seq<char>)>,
)
    requires
        wf_session_id(id),
        entries_fit(ps),
    ensures
        des_record(ser_record(id, expiry, ps)) == Some((id, expiry, ps)),
{
    let s = ser_record(id, expiry, ps);
    let tail = hex_of(ps.len() as int, 16) + ser_entries(ps);
    lemma_hex_of_value(ps.len() as int, 16);
    assert(s.subrange(0, 32) =~= id);
    lemma_des_ser_tail(ps);
    match expiry {
        None => {
            assert(s[32] == 'n');
            assert(s.subrange(33, s.len() as int) =~= tail);
        },
        Some(t) => {
            let bits = (t as u64) as int;
            lemma_pow16_16();
            lemma_hex_of_value(bits, 16);
            assert(s[32] == 'e');
            assert(s.subrange(33, 49) =~= hex_of(bits, 16));
            assert(s.subrange(49, s.len() as int) =~= tail);
            assert((t as u64) as i64 == t) by (bit_vector);
            assert((bits as u64) == (t as u64));
            assert(s.len() >= 49);
            assert(s[32] != 'n');
        },
    }
}

/// Corollary of the round trip: the text of a record decodes to its
/// own id and expiry, and its parsed entries induce exactly the
/// record's payload map.
pub proof fn lemma_record_text_faithful(
    id: Seq<char>,
    expiry: Option<i64>,
    entries: Seq<(String, String)>,
)
    requires
        wf_session_id(id),
        entries_fit(entries_views(entries)),
    ensures
        des_record(ser_record(id, expiry, entries_views(entries))) == Some(
            (id, expiry, entries_views(entries)),
        ),
        views_map(entries_views(entries)) == payload_map(entries),
{
    lemma_des_ser_record(id, expiry, entries_views(entries));
    lemma_views_map_payload(entries);
}

/// The payload map the parsed entries induce; a later entry wins, as
/// repeated insertion does.
pub open spec fn views_map(ps: Seq<(Seq<char>, Seq<char>)>) -> Map<Seq<char>, Seq<char>>
    decreases ps.len(),
{
    if ps.len() == 0 {
        Map::empty()
    } else {
        views_map(ps.drop_last()).insert(ps.last().0, ps.last().1)
    }
}

/// A record's own payload map is the map its serialized entries induce.
pub proof fn lemma_views_map_payload(e: Seq<(String, String)>)
    ensures
        views_map(entries_views(e)) == payload_map(e),
    decreases e.len(),
{
    if e.len() > 0 {
        lemma_views_map_payload(e.drop_last());
        assert(entries_views(e).drop_last() =~= entries_views(e.drop_last()));
        assert(entry_key_fn()(e.last()) == e.last().0@);
        assert(entry_value_fn()(e.last()) == e.last().1@);
        assert(views_map(entries_views(e)) =~= payload_map(e));
    }
}

proof fn lemma_ser_entries_snoc(a: Seq<(Seq<char>, Seq<char>)>, x: (Seq<char>, Seq<char>))
    ensures
        ser_entries(a.push(x)) == ser_entries(a) + ser_entry(x),
    decreases a.len(),
{
    if a.len() == 0 {
        assert(a.push(x)[0] == x);
        assert(a.push(x).drop_first() =~= a);
        assert(ser_entries(a.push(x)) =~= ser_entries(a) + ser_entry(x));
    } else {
        assert(a.push(x)[0] == a[0]);
        assert(a.push(x).drop_first() =~= a.drop_first().push(x));
        lemma_ser_entries_snoc(a.drop_first(), x);
        assert(ser_entries(a.push(x)) =~= ser_entries(a) + ser_entry(x));
    }
}

/// Serialize a session record into the row text.
pub fn encode_record(rec: &SessionRecord) -> (r: String)
    requires
        rec.wf(),
    ensures
        r@ == ser_record(rec.id@, rec.expiry, entries_views(rec.entries@)),
        entries_fit(entries_views(rec.entries@)),
{
    proof {
        lemma_pow16_16();
    }
    let mut out: Vec<char> = chars_vec(rec.id.as_str());
    match rec.expiry {
        None => {
            out.push('n');
            proof {
                assert(out@ =~= rec.id@ + ser_expiry(rec.expiry));
            }
        },
        Some(t) => {
            out.push('e');
            let mut tx = u128_to_hex((t as u64) as u128, 16);
            out.append(&mut tx);
            proof {
                assert(out@ =~= rec.id@ + ser_expiry(rec.expiry));
            }
        },
    }
    let ghost head = rec.id@ + ser_expiry(rec.expiry);
    let n = rec.entries.len();
    let ghost ev = entries_views(rec.entries@);
    let mut cx = u128_to_hex(n as u128, 16);
    out.append(&mut cx);
    let ghost head2 = head + hex_of(ev.len() as int, 16);
    proof {
        assert(ev.len() == n);
        assert((n as u128) < pow16(16));
        assert(out@ =~= head2 + ser_entries(ev.subrange(0, 0)));
    }
    let mut i: usize = 0;
    while i < n
        invariant
            rec.wf(),
            n == rec.entries@.len(),
            i <= n,
            ev == entries_views(rec.entries@),
            head2 == rec.id@ + ser_expiry(rec.expiry) + hex_of(ev.len() as int, 16),
            out@ == head2 + ser_entries(ev.subrange(0, i as int)),
            ev.len() < pow16(16),
            forall|k: int| 0 <= k < i ==> entry_fits(#[trigger] ev[k]),
        decreases n - i,
    {
        proof {
            lemma_pow16_16();
        }
        let key_s = rec.entries[i].0.as_str();
        let klen = key_s.unicode_len();
        let mut kx = u128_to_hex(klen as u128, 16);
        out.append(&mut kx);
        let mut kc = chars_vec(key_s);
        out.append(&mut kc);
        let value_s = rec.entries[i].1.as_str();
        let vlen = value_s.unicode_len();
        let mut vx = u128_to_hex(vlen as u128, 16);
        out.append(&mut vx);
        let mut vc = chars_vec(value_s);
        out.append(&mut vc);
        proof {
            assert(ev[i as int] == entry_views(rec.entries@[i as int]));
            lemma_ser_entries_snoc(ev.subrange(0, i as int), ev[i as int]);
            assert(ev.subrange(0, (i + 1) as int) =~= ev.subrange(0, i as int).push(
                ev[i as int],
            ));
            assert(out@ =~= head2 + ser_entries(ev.subrange(0, (i + 1) as int)));
            assert(entry_fits(ev[i as int]));
        }
        i = i + 1;
    }
    proof {
        assert(ev.subrange(0, n as int) =~= ev);
    }
    string_from_chars(&out)
}

/// Parse a row text back into a session record, failing closed: the
/// result is exactly what `des_record` says the text stands for, and
/// anything else is `CorruptSessionPayload`. Entries are replayed
/// through `insert`, so a later duplicate key wins, as `views_map`
/// states.
pub fn decode_record(s: &str) -> (r: Result<SessionRecord, StoreError>)
    ensures
        r is Err <==> des_record(s@) is None,
        r matches Err(e) ==> e == StoreError::CorruptSessionPayload,
        r matches Ok(rec) ==> {
            &&& des_record(s@) matches Some(f)
            &&& rec.id@ == f.0
            &&& rec.expiry == f.1
            &&& rec@.data == views_map(f.2)
            &&& rec.wf()
            &&& rec.cookie_opt() is None
            &&& !rec.data_changed
        },
{
    let cs = chars_vec(s);
    let n = cs.len();
    if n < 33 {
        return Err(StoreError::CorruptSessionPayload);
    }
    let id_chars = subvec(&cs, 0, 32);
    proof {
        assert(id_chars@ =~= s@.subrange(0, 32));
    }
    if !is_all_hex(&id_chars) {
        return Err(StoreError::CorruptSessionPayload);
    }
    let id = string_from_chars(&id_chars);
    let tag = cs[32];
    let expiry: Option<i64>;
    let mut pos: usize;
    if tag == 'n' {
        expiry = None;
        pos = 33;
    } else if tag == 'e' {
        if n < 49 {
            return Err(StoreError::CorruptSessionPayload);
        }
        let ts = subvec(&cs, 33, 49);
        proof {
            assert(ts@ =~= s@.subrange(33, 49));
        }
        match u128_from_hex(&ts) {
            None => {
                return Err(StoreError::CorruptSessionPayload);
            },
            Some(v) => {
                proof {
                    lemma_hex_value_bound(ts@);
                    lemma_pow16_16();
                }
                expiry = Some(#[verifier::truncate] ((v as u64) as i64));
            },
        }
        pos = 49;
    } else {
        return Err(StoreError::CorruptSessionPayload);
    }
    let ghost tail0 = s@.subrange(pos as int, n as int);
    if n - pos < 16 {
        return Err(StoreError::CorruptSessionPayload);
    }
    let cx = subvec(&cs, pos, pos + 16);
    proof {
        assert(cx@ =~= tail0.subrange(0, 16));
    }
    let cnt: u128 = match u128_from_hex(&cx) {
        None => {
            return Err(StoreError::CorruptSessionPayload);
        },
        Some(c) => c,
    };
    pos = pos + 16;
    proof {
        lemma_hex_value_bound(cx@);
        assert(s@.subrange(pos as int, n as int) =~= tail0.subrange(16, tail0.len() as int));
        // The head is fully parsed: what remains of `des_record` is
        // `des_entries` on the rest of the text.
        assert(des_record(s@) == (match des_entries(s@.subrange(pos as int, n as int), cnt as nat) {
            None => None::<(Seq<char>, Option<i64>, Seq<(Seq<char>, Seq<char>)>)>,
            Some(ps) => Some((s@.subrange(0, 32), expiry, ps)),
        }));
    }
    let mut rec = SessionRecord {
        id,
        expiry,
        entries: Vec::new(),
        cookie_value: None,
        data_changed: false,
    };
    let ghost mut parsed: Seq<(Seq<char>, Seq<char>)> = Seq::empty();
    let mut j: u128 = 0;
    while j < cnt
        invariant
            cs@ == s@,
            n == s@.len(),
            33 <= n,
            pos <= n,
            j <= cnt,
            rec.wf(),
            rec.cookie_opt() is None,
            rec.id@ == s@.subrange(0, 32),
            rec.expiry == expiry,
            rec@.data == views_map(parsed),
            parsed.len() == j,
            des_record(s@) == (match des_entries(
                s@.subrange(pos as int, n as int),
                (cnt - j) as nat,
            ) {
                None => None::<(Seq<char>, Option<i64>, Seq<(Seq<char>, Seq<char>)>)>,
                Some(t) => Some((s@.subrange(0, 32), expiry, parsed + t)),
            }),
        decreases cnt - j,
    {
        let ghost cur = s@.subrange(pos as int, n as int);
        let ghost k = (cnt - j) as nat;
        if n - pos < 16 {
            return Err(StoreError::CorruptSessionPayload);
        }
        let kx = subvec(&cs, pos, pos + 16);
        proof {
            assert(kx@ =~= cur.subrange(0, 16));
        }
        let klen128: u128 = match u128_from_hex(&kx) {
            None => {
                return Err(StoreError::CorruptSessionPayload);
            },
            Some(c) => c,
        };
        if klen128 > (n - pos - 16) as u128 {
            proof {
                assert(cur.len() < 16 + hex_value_of(cur.subrange(0, 16)));
            }
            return Err(StoreError::CorruptSessionPayload);
        }
        let klen: usize = klen128 as usize;
        let kc = subvec(&cs, pos + 16, pos + 16 + klen);
        let key = string_from_chars(&kc);
        let pos2 = pos + 16 + klen;
        let ghost r1 = cur.subrange(16 + klen as int, cur.len() as int);
        proof {
            assert(kc@ =~= cur.subrange(16, 16 + klen as int));
            assert(r1 =~= s@.subrange(pos2 as int, n as int));
        }
        if n - pos2 < 16 {
            return Err(StoreError::CorruptSessionPayload);
        }
        let vx = subvec(&cs, pos2, pos2 + 16);
        proof {
            assert(vx@ =~= r1.subrange(0, 16));
        }
        let vlen128: u128 = match u128_from_hex(&vx) {
            None => {
                return Err(StoreError::CorruptSessionPayload);
            },
            Some(c) => c,
        };
        if vlen128 > (n - pos2 - 16) as u128 {
            proof {
                assert(r1.len() < 16 + hex_value_of(r1.subrange(0, 16)));
            }
            return Err(StoreError::CorruptSessionPayload);
        }
        let vlen: usize = vlen128 as usize;
        let vc = subvec(&cs, pos2 + 16, pos2 + 16 + vlen);
        let value = string_from_chars(&vc);
        let pos3 = pos2 + 16 + vlen;
        let ghost r2 = r1.subrange(16 + vlen as int, r1.len() as int);
        proof {
            assert(vc@ =~= r1.subrange(16, 16 + vlen as int));
            assert(r2 =~= s@.subrange(pos3 as int, n as int));
        }
        let ghost e = (key@, value@);
        proof {
            assert(des_entries(cur, k) == (match des_entries(r2, (k - 1) as nat) {
                None => None::<Seq<(Seq<char>, Seq<char>)>>,
                Some(t) => Some(seq![e] + t),
            }));
            match des_entries(r2, (k - 1) as nat) {
                None => {},
                Some(t) => {
                    assert(parsed + (seq![e] + t) =~= parsed.push(e) + t);
                },
            }
            assert(parsed.push(e).drop_last() =~= parsed);
            assert(parsed.push(e).last() == e);
        }
        rec.insert(key, value);
        proof {
            parsed = parsed.push(e);
            assert(rec@.data == views_map(parsed));
        }
        pos = pos3;
        j = j + 1;
    }
    if pos != n {
        proof {
            assert(s@.subrange(pos as int, n as int).len() > 0);
        }
        return Err(StoreError::CorruptSessionPayload);
    }
    proof {
        assert(s@.subrange(pos as int, n as int).len() == 0);
        assert(parsed + Seq::<(Seq<char>, Seq<char>)>::empty() =~= parsed);
    }
    rec.reset_data_changed();
    Ok(rec)
}

} // verus!
