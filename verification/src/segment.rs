//! A single validated DNS label: lower-cased ASCII from `[a-z0-9_-]`,
//! length 1 to 63, with the usual hyphen placement rules, or the bare
//! wildcard marker `*` that the domain-name layer admits as a leading
//! segment.

use vstd::prelude::*;

use crate::text::{lower_str, spec_lower, spec_lower_char, str_eq};

verus! {

/// Produced when attempting to construct a [`DomainSegment`] from an
/// invalid string.
#[derive(Debug, Clone, PartialEq, Eq)]
pub enum DomainSegmentError {
    /// Segment contains a character outside `[a-z0-9_-]`.
    InvalidCharacter(char),
    /// Segment is longer than the permitted 63 characters.
    TooLong(usize),
    /// Hyphen at the start, at the end, or at the 3rd and 4th position
    /// simultaneously (1-based position reported).
    IllegalHyphen(usize),
    /// Segment is empty.
    EmptyString,
}

/// A character a domain label may contain (the wildcard marker aside).
pub open spec fn spec_valid_segment_char(c: char) -> bool {
    ('a' <= c && c <= 'z') || ('0' <= c && c <= '9') || c == '_' || c == '-'
}

/// A bare wildcard label, `*`.
pub open spec fn spec_is_wildcard(s: Seq<char>) -> bool {
    s.len() == 1 && s[0] == '*'
}

/// First character of `s` at or after `i` that is not a valid label
/// character, scanning left to right.
pub open spec fn spec_find_invalid_char(s: Seq<char>, i: int) -> Option<char>
    decreases s.len() - i,
{
    if i < 0 || i >= s.len() {
        Option::None
    } else if !spec_valid_segment_char(s[i]) {
        Option::Some(s[i])
    } else {
        spec_find_invalid_char(s, i + 1)
    }
}

/// What constructing a [`DomainSegment`] from the text `s` yields: the
/// lower-cased label, or the first validation failure.
pub open spec fn spec_parse_segment(s: Seq<char>) -> Result<Seq<char>, DomainSegmentError> {
    let v = spec_lower(s);
    if v.len() == 0 {
        Result::Err(DomainSegmentError::EmptyString)
    } else if v.len() > 63 {
        Result::Err(DomainSegmentError::TooLong(v.len() as usize))
    } else if spec_is_wildcard(v) {
        Result::Ok(v)
    } else {
        match spec_find_invalid_char(v, 0) {
            Option::Some(c) => Result::Err(DomainSegmentError::InvalidCharacter(c)),
            Option::None => {
                if v[0] == '-' {
                    Result::Err(DomainSegmentError::IllegalHyphen(1))
                } else if v[v.len() - 1] == '-' {
                    Result::Err(DomainSegmentError::IllegalHyphen(v.len() as usize))
                } else if v.len() >= 4 && v[2] == '-' && v[3] == '-' {
                    Result::Err(DomainSegmentError::IllegalHyphen(3))
                } else {
                    Result::Ok(v)
                }
            },
        }
    }
}

/// A label is well formed exactly when parsing its own text accepts it
/// unchanged.
pub open spec fn spec_wf_segment(t: Seq<char>) -> bool {
    spec_parse_segment(t) == Result::<Seq<char>, DomainSegmentError>::Ok(t)
}

/// One validated (or wildcard) DNS label.
#[derive(Debug, PartialEq, Eq)]
pub struct DomainSegment {
    text: String,
}

impl Clone for DomainSegment {
    fn clone(&self) -> (r: Self)
        ensures
            r@ == self@,
    {
        DomainSegment { text: self.text.clone() }
    }
}

impl View for DomainSegment {
    type V = Seq<char>;

    closed spec fn view(&self) -> Seq<char> {
        self.text@
    }
}

impl DeepView for DomainSegment {
    type V = Seq<char>;

    open spec fn deep_view(&self) -> Seq<char> {
        self.view()
    }
}

impl DomainSegment {
    /// Parses and validates a single label, lowercasing it first.
    pub fn try_from(value: &str) -> (r: Result<DomainSegment, DomainSegmentError>)
        ensures
            match r {
                Result::Ok(seg) => spec_parse_segment(value@) == Result::<
                    Seq<char>,
                    DomainSegmentError,
                >::Ok(seg@),
                Result::Err(e) => spec_parse_segment(value@) == Result::<
                    Seq<char>,
                    DomainSegmentError,
                >::Err(e),
            },
    {
        let low = lower_str(value);
        let n: usize = low.as_str().unicode_len();
        if n == 0 {
            return Result::Err(DomainSegmentError::EmptyString);
        }
        if n > 63 {
            return Result::Err(DomainSegmentError::TooLong(n));
        }
        if str_eq(low.as_str(), "*") {
            proof {
                reveal_strlit("*");
                assert(spec_is_wildcard(low@));
            }
            return Result::Ok(DomainSegment { text: low });
        }
        proof {
            reveal_strlit("*");
            if spec_is_wildcard(low@) {
                assert(low@ =~= "*"@);
            }
        }
        let mut i: usize = 0;
        while i < n
            invariant
                i <= n,
                n == low@.len(),
                1 <= n <= 63,
                low@ == spec_lower(value@),
                !spec_is_wildcard(low@),
                spec_find_invalid_char(low@, 0) == spec_find_invalid_char(low@, i as int),
                forall|j: int| 0 <= j < i ==> spec_valid_segment_char(low@[j]),
            decreases n - i,
        {
            let c = low.as_str().get_char(i);
            let ok = ('a' <= c && c <= 'z') || ('0' <= c && c <= '9') || c == '_' || c == '-';
            if !ok {
                proof {
                    assert(spec_find_invalid_char(low@, i as int) == Option::<char>::Some(c));
                }
                return Result::Err(DomainSegmentError::InvalidCharacter(c));
            }
            i = i + 1;
        }
        proof {
            assert(spec_find_invalid_char(low@, n as int) is None);
        }
        if low.as_str().get_char(0) == '-' {
            return Result::Err(DomainSegmentError::IllegalHyphen(1));
        }
        if low.as_str().get_char(n - 1) == '-' {
            return Result::Err(DomainSegmentError::IllegalHyphen(n));
        }
        if n >= 4 {
            if low.as_str().get_char(2) == '-' && low.as_str().get_char(3) == '-' {
                return Result::Err(DomainSegmentError::IllegalHyphen(3));
            }
        }
        Result::Ok(DomainSegment { text: low })
    }

    /// The label's text.
    pub fn as_str(&self) -> (r: &str)
        ensures
            r@ == self@,
    {
        self.text.as_str()
    }

    /// True when this label is the bare wildcard marker `*`.
    pub fn is_wildcard(&self) -> (r: bool)
        ensures
            r == spec_is_wildcard(self@),
    {
        proof {
            reveal_strlit("*");
            if spec_is_wildcard(self@) {
                assert(self@ =~= "*"@);
            }
        }
        str_eq(self.text.as_str(), "*")
    }

    /// The label's length in characters.
    pub fn len(&self) -> (r: usize)
        ensures
            r == self@.len(),
    {
        self.text.as_str().unicode_len()
    }
}

/// Round trip: every accepted label is exactly the lowercasing of the
/// text it was built from, so rendering it back yields that lowercased
/// text unchanged.
pub proof fn lemma_segment_round_trip(s: Seq<char>)
    ensures
        spec_parse_segment(s) matches Ok(t) ==> t == spec_lower(s),
        spec_parse_segment(s) matches Ok(t) ==> spec_wf_segment(t),
{
    let r = spec_parse_segment(s);
    if r is Ok {
        let t = r->Ok_0;
        assert(t == spec_lower(s));
        lemma_lower_idempotent(s);
        if !spec_is_wildcard(t) {
            assert(spec_find_invalid_char(t, 0) is None);
        }
    }
}

/// Lowercasing is idempotent.
pub proof fn lemma_lower_idempotent(s: Seq<char>)
    ensures
        spec_lower(spec_lower(s)) == spec_lower(s),
{
    assert(spec_lower(spec_lower(s)) =~= spec_lower(s)) by {
        assert forall|i: int| 0 <= i < s.len() implies spec_lower_char(spec_lower_char(s[i]))
            == spec_lower_char(s[i]) by {
            let c = s[i];
            if 'A' <= c && c <= 'Z' {
                assert(!('A' <= spec_lower_char(c) && spec_lower_char(c) <= 'Z'));
            }
        }
    }
}

} // verus!
