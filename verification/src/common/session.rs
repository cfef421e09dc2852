//! Validated session identifiers.

use vstd::prelude::*;

use crate::text::{chars_of, starts_with};

verus! {

/// A validated session identifier.
///
/// Session IDs have the form `ox_<8 alphanumeric chars>`, e.g. `ox_k7m3qx9p`.
#[derive(Debug, Clone, PartialEq, Eq, Hash)]
pub struct SessionId(String);

/// Whether `c` is an ASCII letter or digit.
pub open spec fn is_ascii_alnum(c: char) -> bool {
    ||| ('0' <= c <= '9')
    ||| ('a' <= c <= 'z')
    ||| ('A' <= c <= 'Z')
}

/// The prefix of every session identifier.
pub open spec fn session_prefix() -> Seq<char> {
    "ox_"@
}

/// Whether `s` is `ox_` followed by exactly eight ASCII letters or digits.
pub open spec fn valid_session_id(s: Seq<char>) -> bool {
    &&& s.len() == 11
    &&& starts_with(s, session_prefix())
    &&& forall|k: int| 3 <= k < 11 ==> is_ascii_alnum(#[trigger] s[k])
}

impl View for SessionId {
    type V = Seq<char>;

    closed spec fn view(&self) -> Seq<char> {
        self.0@
    }
}

/// Whether `c` is an ASCII letter or digit.
pub fn ascii_alnum(c: char) -> (r: bool)
    ensures
        r == is_ascii_alnum(c),
{
    ('0' <= c && c <= '9') || ('a' <= c && c <= 'z') || ('A' <= c && c <= 'Z')
}

impl SessionId {
    /// The prefix for all session IDs.
    pub const PREFIX: &'static str = "ox_";

    /// The length of the random suffix.
    pub const SUFFIX_LEN: usize = 8;

    /// Create a new `SessionId` from a raw string, validating the format.
    ///
    /// Returns `None` if the string doesn't match `ox_<8 alphanumeric chars>`.
    pub fn new(s: String) -> (r: Option<Self>)
        ensures
            r is Some <==> valid_session_id(s@),
            r matches Some(id) ==> id@ == s@,
    {
        if Self::is_valid(s.as_str()) {
            Some(SessionId(s))
        } else {
            None
        }
    }

    /// Check whether a string is a valid session ID.
    pub fn is_valid(s: &str) -> (r: bool)
        ensures
            r == valid_session_id(s@),
    {
        let v = chars_of(s);
        let p = chars_of("ox_");
        proof {
            reveal_strlit("ox_");
        }
        if v.len() != 11 {
            return false;
        }
        if !crate::text::has_at(&v, 0, &p) {
            assert(!starts_with(v@, session_prefix())) by {
                assert(v@.subrange(0, 3) =~= v@.take(3));
            }
            return false;
        }
        assert(v@.subrange(0, 3) =~= v@.take(3));
        let mut k: usize = 3;
        while k < 11
            invariant
                3 <= k <= 11,
                v@.len() == 11,
                v@ == s@,
                forall|j: int| 3 <= j < k ==> is_ascii_alnum(#[trigger] v@[j]),
            decreases 11 - k,
        {
            if !ascii_alnum(v[k]) {
                return false;
            }
            k = k + 1;
        }
        true
    }

    /// The identifier as a string slice.
    pub fn as_str(&self) -> (r: &str)
        ensures
            r@ == self@,
    {
        self.0.as_str()
    }

    /// A copy of this identifier.
    pub fn duplicate(&self) -> (r: Self)
        ensures
            r@ == self@,
    {
        SessionId(self.0.clone())
    }

    /// Wraps a string without validating it.
    pub fn from_string(s: String) -> (r: Self)
        ensures
            r@ == s@,
    {
        SessionId(s)
    }

    /// Wraps a copy of a string slice without validating it.
    pub fn from_str_unchecked(s: &str) -> (r: Self)
        ensures
            r@ == s@,
    {
        SessionId(s.to_owned())
    }

    /// Whether two identifiers are the same string.
    pub fn same_as(&self, other: &SessionId) -> (r: bool)
        ensures
            r == (self@ == other@),
    {
        self.0 == other.0
    }
}

impl From<String> for SessionId {
    fn from(s: String) -> Self {
        SessionId(s)
    }
}

impl vstd::std_specs::convert::FromSpecImpl<String> for SessionId {
    open spec fn obeys_from_spec() -> bool {
        true
    }

    closed spec fn from_spec(v: String) -> Self {
        SessionId(v)
    }
}

impl AsRef<str> for SessionId {
    fn as_ref(&self) -> (r: &str)
        ensures
            r@ == self@,
    {
        self.0.as_str()
    }
}

} // verus!
