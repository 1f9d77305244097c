//! The catalog entity a subscription points at, and the validated name
//! it carries. Name validation is the one piece of logic here: trimmed,
//! non-empty, at most 64 grapheme clusters, and free of a fixed set of
//! markup-like characters.

use vstd::prelude::*;

verus! {

use crate::text::{chars_vec, is_space, is_space_spec, lemma_trim_start_at, lemma_trim_end_at,
    trim_spec};
use vstd::string::StrSliceExecFns;
use vstd::string::StringExecFns;

/// The number of extended grapheme clusters in a string, a function of
/// its characters alone.
pub uninterp spec fn grapheme_count(s: Seq<char>) -> nat;

/// Relies on `unicode_segmentation::UnicodeSegmentation::graphemes`
/// (extended grapheme clusters, as `str::graphemes(true)`): counts the
/// clusters of the string.
#[verifier::external_body]
fn count_graphemes(s: &str) -> (n: usize)
    ensures
        n as nat == grapheme_count(s@),
{
    unicode_segmentation::UnicodeSegmentation::graphemes(s, true).count()
}

/// The characters a service name may not contain.
pub open spec fn is_forbidden_char(c: char) -> bool {
    c == '/' || c == '(' || c == ')' || c == '"' || c == '<' || c == '>' || c == '\\' || c == '{'
        || c == '}'
}

pub open spec fn has_forbidden_char(s: Seq<char>) -> bool {
    exists|i: int| 0 <= i < s.len() && is_forbidden_char(#[trigger] s[i])
}

/// What `ServiceName::parse` accepts: not empty or whitespace-only, at
/// most 64 grapheme clusters, and no forbidden character.
pub open spec fn service_name_ok(s: Seq<char>) -> bool {
    &&& trim_spec(s).len() > 0
    &&& grapheme_count(s) <= 64
    &&& !has_forbidden_char(s)
}

fn forbidden_char(c: char) -> (r: bool)
    ensures
        r == is_forbidden_char(c),
{
    c == '/' || c == '(' || c == ')' || c == '"' || c == '<' || c == '>' || c == '\\' || c == '{'
        || c == '}'
}

/// A validated service name, held trimmed.
#[derive(Debug)]
pub struct ServiceName(pub String);

impl View for ServiceName {
    type V = Seq<char>;

    open spec fn view(&self) -> Seq<char> {
        self.0@
    }
}

impl ServiceName {
    /// Accept a candidate name exactly when it is non-empty after
    /// trimming, at most 64 graphemes long, and free of forbidden
    /// characters; the accepted name is kept trimmed.
    pub fn parse(s: String) -> (r: Result<ServiceName, String>)
        ensures
            r is Ok <==> service_name_ok(s@),
            r matches Ok(n) ==> n@ == trim_spec(s@),
            r matches Err(e) ==> e@ == s@ + " is not a valid service name."@,
    {
        let cs = chars_vec(s.as_str());
        let n = cs.len();
        let mut has_forbidden = false;
        let mut i: usize = 0;
        while i < n
            invariant
                n == cs@.len(),
                cs@ == s@,
                i <= n,
                has_forbidden == exists|k: int| 0 <= k < i && is_forbidden_char(#[trigger] cs@[k]),
            decreases n - i,
        {
            if forbidden_char(cs[i]) {
                has_forbidden = true;
            }
            i = i + 1;
        }
        let mut start: usize = 0;
        while start < n && is_space(cs[start])
            invariant
                n == cs@.len(),
                cs@ == s@,
                start <= n,
                forall|k: int| 0 <= k < start ==> is_space_spec(#[trigger] cs@[k]),
            decreases n - start,
        {
            start = start + 1;
        }
        let mut end: usize = n;
        while end > start && is_space(cs[end - 1])
            invariant
                n == cs@.len(),
                cs@ == s@,
                start <= end <= n,
                forall|k: int| end <= k < n ==> is_space_spec(#[trigger] cs@[k]),
            decreases end,
        {
            end = end - 1;
        }
        proof {
            lemma_trim_start_at(s@, start as int);
            lemma_trim_end_at(
                s@.subrange(start as int, n as int),
                (end - start) as int,
            );
            assert(s@.subrange(start as int, n as int).subrange(0, (end - start) as int) =~= s@
                .subrange(start as int, end as int));
        }
        let is_empty_or_whitespace = start == end;
        let is_too_long = count_graphemes(s.as_str()) > 64;
        if is_empty_or_whitespace || is_too_long || has_forbidden {
            Err(s.concat(" is not a valid service name."))
        } else {
            Ok(ServiceName(s.as_str().substring_char(start, end).to_owned()))
        }
    }

    /// The validated name as text.
    pub fn as_ref(&self) -> (r: &str)
        ensures
            r@ == self@,
    {
        self.0.as_str()
    }
}

impl From<String> for ServiceName {
    /// A name read back verbatim from the catalog table. This bypasses
    /// `parse`, so it is only for values the table already validated.
    fn from(value: String) -> (r: Self) {
        ServiceName(value)
    }
}

impl vstd::std_specs::convert::FromSpecImpl<String> for ServiceName {
    open spec fn obeys_from_spec() -> bool {
        true
    }

    open spec fn from_spec(t: String) -> Self {
        ServiceName(t)
    }
}

/// A catalog entry: id (the 128 bits of its UUID), validated name, and
/// creation instant in Unix seconds.
pub struct Service {
    pub id: u128,
    pub name: ServiceName,
    pub created_at: i64,
}

/// A catalog key.
pub struct ServiceId(pub u128);

/// A validated request to add a catalog entry.
pub struct NewService {
    pub name: ServiceName,
}

} // verus!
