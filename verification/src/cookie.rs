//! The cookie contract: a session id is referenced outside the process
//! only through an encoded cookie value, which must round-trip through
//! `encode_cookie` / `decode_cookie` and fail closed on anything
//! malformed.
//!
//! A session id is 32 lowercase hexadecimal digits (128 random bits). A
//! cookie value appends a 16-digit integrity tag, the hexadecimal sum of
//! the id's characters, so that a truncated or hand-edited value is
//! rejected rather than trusted as a raw id.

use vstd::prelude::*;

verus! {

use crate::StoreError;
use crate::entropy::random_u128;
use crate::hexnum::{all_hex, hex_value_of, is_all_hex, lemma_pow16_16, u128_from_hex, u128_to_hex};
use crate::text::{chars_vec, string_from_chars};

/// A well-formed session id: exactly 32 lowercase hexadecimal digits.
pub open spec fn wf_session_id(s: Seq<char>) -> bool {
    s.len() == 32 && all_hex(s)
}

/// The integrity tag carried by a cookie value: the sum of the character
/// values of the session id.
pub open spec fn checksum_spec(s: Seq<char>) -> int
    decreases s.len(),
{
    if s.len() == 0 {
        0
    } else {
        checksum_spec(s.drop_last()) + s.last() as u32
    }
}

/// Whether a client-supplied cookie value is accepted by the decoder.
pub open spec fn cookie_accepts(s: Seq<char>) -> bool {
    &&& s.len() == 48
    &&& all_hex(s.subrange(0, 32))
    &&& all_hex(s.subrange(32, 48))
    &&& hex_value_of(s.subrange(32, 48)) == checksum_spec(s.subrange(0, 32))
}

/// The session id an accepted cookie value stands for.
pub open spec fn cookie_id(s: Seq<char>) -> Seq<char> {
    s.subrange(0, 32)
}

fn checksum64(v: &Vec<char>) -> (r: u64)
    requires
        v@.len() <= 64,
    ensures
        r as int == checksum_spec(v@),
{
    let mut sum: u64 = 0;
    let mut i: usize = 0;
    while i < v.len()
        invariant
            i <= v@.len() <= 64,
            sum as int == checksum_spec(v@.subrange(0, i as int)),
            sum as int <= i * 0x100000000,
        decreases v@.len() - i,
    {
        let c = v[i];
        proof {
            assert(v@.subrange(0, (i + 1) as int).drop_last() =~= v@.subrange(0, i as int));
            assert(v@.subrange(0, (i + 1) as int).last() == v@[i as int]);
        }
        sum = sum + ((c as u32) as u64);
        i = i + 1;
    }
    proof {
        assert(v@.subrange(0, v@.len() as int) =~= v@);
    }
    sum
}

/// A fresh opaque session id: 128 random bits as 32 hexadecimal digits.
pub fn generate_session_id() -> (r: String)
    ensures
        wf_session_id(r@),
{
    proof {
        crate::hexnum::lemma_pow16_32();
    }
    let n = random_u128();
    let v = u128_to_hex(n, 32);
    string_from_chars(&v)
}

/// Encode a session id as the cookie value handed to the client.
pub fn encode_cookie(id: &str) -> (r: String)
    requires
        wf_session_id(id@),
    ensures
        cookie_accepts(r@),
        cookie_id(r@) == id@,
{
    let mut v = chars_vec(id);
    let sum = checksum64(&v);
    proof {
        lemma_pow16_16();
    }
    let mut tail = u128_to_hex(sum as u128, 16);
    let ghost tail_view = tail@;
    v.append(&mut tail);
    proof {
        assert(v@.subrange(0, 32) =~= id@);
        assert(v@.subrange(32, 48) =~= tail_view);
    }
    string_from_chars(&v)
}

/// Decode a client-supplied cookie value, failing closed: anything that
/// is not exactly an encoded well-formed session id is rejected.
pub fn decode_cookie(cookie: &str) -> (r: Result<String, StoreError>)
    ensures
        cookie_accepts(cookie@) ==> (r matches Ok(id) && id@ == cookie_id(cookie@)),
        !cookie_accepts(cookie@) ==> r == Err::<String, StoreError>(StoreError::MalformedCookie),
        r matches Ok(id) ==> wf_session_id(id@) && id@ == cookie_id(cookie@),
{
    let mut v = chars_vec(cookie);
    if v.len() != 48 {
        return Err(StoreError::MalformedCookie);
    }
    let tail = v.split_off(32);
    proof {
        assert(v@ =~= cookie@.subrange(0, 32));
        assert(tail@ =~= cookie@.subrange(32, 48));
    }
    if !is_all_hex(&v) {
        return Err(StoreError::MalformedCookie);
    }
    let sum = checksum64(&v);
    match u128_from_hex(&tail) {
        None => Err(StoreError::MalformedCookie),
        Some(t) => {
            if t == sum as u128 {
                Ok(string_from_chars(&v))
            } else {
                Err(StoreError::MalformedCookie)
            }
        },
    }
}

} // verus!
