//! The delegation-pattern engine: segment patterns that may carry one
//! wildcard apiece, whole-domain patterns matched right to left against a
//! candidate name, and the origin-appending that anchors a relative
//! pattern under a parent zone.

use vstd::prelude::*;

use crate::dn::{
    spec_fqdn_text, spec_split_dots, split_dots, FullyQualifiedDomainName,
};
use crate::segment::{spec_is_wildcard, spec_valid_segment_char, DomainSegment};
use crate::text::{lower_str, push_char, spec_lower, str_eq};

verus! {

/// Produced when attempting to construct a [`PatternSegment`] from an
/// invalid string.
#[derive(Debug, Clone, PartialEq, Eq)]
pub enum PatternSegmentError {
    /// Hyphen at the start, at the end, or at the 3rd and 4th position
    /// simultaneously (1-based position reported).
    IllegalHyphen(usize),
    /// Segment contains a character outside `[a-z0-9_-]` and `*`.
    InvalidCharacter(char),
    /// Segment is longer than the permitted 63 characters.
    TooLong(usize),
    /// Segment is empty.
    EmptyString,
    /// Segment contains more than one wildcard (`*`) character.
    MultipleWildcards,
}

/// A character a pattern segment may contain: a label character or the
/// wildcard.
pub open spec fn spec_valid_pattern_char(c: char) -> bool {
    spec_valid_segment_char(c) || c == '*'
}

/// First character of `s` at or after `i` that is not a valid pattern
/// character, scanning left to right.
pub open spec fn spec_find_invalid_pattern_char(s: Seq<char>, i: int) -> Option<char>
    decreases s.len() - i,
{
    if i < 0 || i >= s.len() {
        Option::None
    } else if !spec_valid_pattern_char(s[i]) {
        Option::Some(s[i])
    } else {
        spec_find_invalid_pattern_char(s, i + 1)
    }
}

/// How many wildcard characters `s` holds.
pub open spec fn spec_count_stars(s: Seq<char>) -> nat
    decreases s.len(),
{
    if s.len() == 0 {
        0
    } else {
        spec_count_stars(s.drop_last()) + (if s[s.len() - 1] == '*' {
            1nat
        } else {
            0nat
        })
    }
}

/// Index of the first wildcard character of `s` at or after `i`.
pub open spec fn spec_first_star(s: Seq<char>, i: int) -> Option<int>
    decreases s.len() - i,
{
    if i < 0 || i >= s.len() {
        Option::None
    } else if s[i] == '*' {
        Option::Some(i)
    } else {
        spec_first_star(s, i + 1)
    }
}

/// What constructing a [`PatternSegment`] from the text `s` yields: the
/// lower-cased segment, or the first validation failure.
pub open spec fn spec_parse_pattern_segment(s: Seq<char>) -> Result<
    Seq<char>,
    PatternSegmentError,
> {
    let v = spec_lower(s);
    if v.len() == 0 {
        Result::Err(PatternSegmentError::EmptyString)
    } else if v.len() > 63 {
        Result::Err(PatternSegmentError::TooLong(v.len() as usize))
    } else {
        match spec_find_invalid_pattern_char(v, 0) {
            Option::Some(c) => Result::Err(PatternSegmentError::InvalidCharacter(c)),
            Option::None => {
                if v[0] == '-' {
                    Result::Err(PatternSegmentError::IllegalHyphen(1))
                } else if v[v.len() - 1] == '-' {
                    Result::Err(PatternSegmentError::IllegalHyphen(v.len() as usize))
                } else if v.len() >= 4 && v[2] == '-' && v[3] == '-' {
                    Result::Err(PatternSegmentError::IllegalHyphen(3))
                } else if spec_count_stars(v) > 1 {
                    Result::Err(PatternSegmentError::MultipleWildcards)
                } else {
                    Result::Ok(v)
                }
            },
        }
    }
}

pub open spec fn spec_is_prefix(p: Seq<char>, d: Seq<char>) -> bool {
    p.len() <= d.len() && d.take(p.len() as int) == p
}

pub open spec fn spec_is_suffix(p: Seq<char>, d: Seq<char>) -> bool {
    p.len() <= d.len() && d.skip(d.len() - p.len()) == p
}

/// A pattern segment matches a label when it equals it literally, or when
/// the text before its wildcard is a prefix and the text after it a suffix
/// of the label (the two may overlap for short labels).
pub open spec fn spec_segment_matches(p: Seq<char>, d: Seq<char>) -> bool {
    if p == d {
        true
    } else {
        match spec_first_star(p, 0) {
            Option::Some(k) => spec_is_prefix(p.take(k), d) && spec_is_suffix(
                p.skip(k + 1),
                d,
            ),
            Option::None => false,
        }
    }
}

/// Right-to-left walk of pattern against domain, `k` segments already
/// matched from the end: a bare wildcard segment absorbs the rest, a
/// non-matching segment refutes the whole pattern.
pub open spec fn spec_match_rtl(p: Seq<Seq<char>>, d: Seq<Seq<char>>, k: int) -> bool
    decreases p.len() - k,
{
    if k < 0 || k >= p.len() || k >= d.len() {
        true
    } else {
        let ps = p[p.len() - 1 - k];
        let ds = d[d.len() - 1 - k];
        if spec_is_wildcard(ps) {
            true
        } else if !spec_segment_matches(ps, ds) {
            false
        } else {
            spec_match_rtl(p, d, k + 1)
        }
    }
}

/// Whole-pattern match: a pattern longer than the domain never matches; a
/// domain longer than the pattern only matches when the pattern starts
/// with a bare wildcard segment; otherwise segments are compared right to
/// left.
pub open spec fn spec_pattern_matches(p: Seq<Seq<char>>, d: Seq<Seq<char>>) -> bool {
    if d.len() < p.len() {
        false
    } else if d.len() > p.len() && !(p.len() > 0 && spec_is_wildcard(p[0])) {
        false
    } else {
        spec_match_rtl(p, d, 0)
    }
}

/// `s` with every trailing `.` removed.
pub open spec fn spec_trim_dots(s: Seq<char>) -> Seq<char>
    decreases s.len(),
{
    if s.len() > 0 && s[s.len() - 1] == '.' {
        spec_trim_dots(s.drop_last())
    } else {
        s
    }
}

/// Parses the parts of a dotted pattern from index `i` on; the first
/// failure, scanning left to right, wins.
pub open spec fn spec_parse_pattern_parts(parts: Seq<Seq<char>>, i: int) -> Result<
    Seq<Seq<char>>,
    PatternSegmentError,
>
    decreases parts.len() - i,
{
    if i < 0 || i >= parts.len() {
        Result::Ok(Seq::empty())
    } else {
        match spec_parse_pattern_segment(parts[i]) {
            Result::Err(e) => Result::Err(e),
            Result::Ok(t) => match spec_parse_pattern_parts(parts, i + 1) {
                Result::Err(e) => Result::Err(e),
                Result::Ok(rest) => Result::Ok(seq![t] + rest),
            },
        }
    }
}

/// What constructing a [`Pattern`] from the text `s` yields: trailing
/// separators are discarded first, so fully and partially qualified text
/// build the same pattern.
pub open spec fn spec_parse_pattern(s: Seq<char>) -> Result<Seq<Seq<char>>, PatternSegmentError> {
    spec_parse_pattern_parts(spec_split_dots(spec_trim_dots(s)), 0)
}

/// Position of the first wildcard character of `s`, if any.
fn find_star(s: &str) -> (r: Option<usize>)
    ensures
        (match r {
            Option::Some(k) => spec_first_star(s@, 0) == Option::<int>::Some(k as int) && k
                < s@.len(),
            Option::None => spec_first_star(s@, 0) is None,
        }),
{
    let n: usize = s.unicode_len();
    let mut k: usize = 0;
    while k < n
        invariant
            k <= n,
            n == s@.len(),
            spec_first_star(s@, 0) == spec_first_star(s@, k as int),
        decreases n - k,
    {
        if s.get_char(k) == '*' {
            proof {
                assert(spec_first_star(s@, k as int) == Option::<int>::Some(k as int));
            }
            return Option::Some(k);
        }
        k = k + 1;
    }
    proof {
        assert(spec_first_star(s@, n as int) is None);
    }
    Option::None
}

/// Segment of a pattern.
///
/// Used for matching against a single [`DomainSegment`].
#[derive(Debug, PartialEq, Eq)]
pub struct PatternSegment {
    text: String,
}

impl View for PatternSegment {
    type V = Seq<char>;

    closed spec fn view(&self) -> Seq<char> {
        self.text@
    }
}

impl DeepView for PatternSegment {
    type V = Seq<char>;

    open spec fn deep_view(&self) -> Seq<char> {
        self.view()
    }
}

impl Clone for PatternSegment {
    fn clone(&self) -> (r: Self)
        ensures
            r@ == self@,
    {
        PatternSegment { text: self.text.clone() }
    }
}

impl PatternSegment {
    /// Parses and validates a single pattern segment, lowercasing it
    /// first.
    pub fn try_from(value: &str) -> (r: Result<PatternSegment, PatternSegmentError>)
        ensures
            (match r {
                Result::Ok(seg) => spec_parse_pattern_segment(value@) == Result::<
                    Seq<char>,
                    PatternSegmentError,
                >::Ok(seg@),
                Result::Err(e) => spec_parse_pattern_segment(value@) == Result::<
                    Seq<char>,
                    PatternSegmentError,
                >::Err(e),
            }),
    {
        let low = lower_str(value);
        let n: usize = low.as_str().unicode_len();
        if n == 0 {
            return Result::Err(PatternSegmentError::EmptyString);
        }
        if n > 63 {
            return Result::Err(PatternSegmentError::TooLong(n));
        }
        let mut i: usize = 0;
        while i < n
            invariant
                i <= n,
                n == low@.len(),
                1 <= n <= 63,
                low@ == spec_lower(value@),
                spec_find_invalid_pattern_char(low@, 0) == spec_find_invalid_pattern_char(
                    low@,
                    i as int,
                ),
                forall|j: int| 0 <= j < i ==> spec_valid_pattern_char(low@[j]),
            decreases n - i,
        {
            let c = low.as_str().get_char(i);
            let ok = ('a' <= c && c <= 'z') || ('0' <= c && c <= '9') || c == '_' || c == '-'
                || c == '*';
            if !ok {
                proof {
                    assert(spec_find_invalid_pattern_char(low@, i as int) == Option::<
                        char,
                    >::Some(c));
                }
                return Result::Err(PatternSegmentError::InvalidCharacter(c));
            }
            i = i + 1;
        }
        proof {
            assert(spec_find_invalid_pattern_char(low@, n as int) is None);
        }
        if low.as_str().get_char(0) == '-' {
            return Result::Err(PatternSegmentError::IllegalHyphen(1));
        }
        if low.as_str().get_char(n - 1) == '-' {
            return Result::Err(PatternSegmentError::IllegalHyphen(n));
        }
        if n >= 4 {
            if low.as_str().get_char(2) == '-' && low.as_str().get_char(3) == '-' {
                return Result::Err(PatternSegmentError::IllegalHyphen(3));
            }
        }
        let mut stars: usize = 0;
        let mut i: usize = 0;
        proof {
            assert(low@.take(0) =~= Seq::<char>::empty());
        }
        while i < n
            invariant
                i <= n,
                n == low@.len(),
                stars == spec_count_stars(low@.take(i as int)),
                stars <= i,
            decreases n - i,
        {
            let c = low.as_str().get_char(i);
            proof {
                assert(low@.take(i as int + 1).drop_last() =~= low@.take(i as int));
                assert(low@.take(i as int + 1)[i as int] == low@[i as int]);
            }
            if c == '*' {
                stars = stars + 1;
            }
            i = i + 1;
        }
        proof {
            assert(low@.take(n as int) =~= low@);
        }
        if stars > 1 {
            return Result::Err(PatternSegmentError::MultipleWildcards);
        }
        Result::Ok(PatternSegment { text: low })
    }

    /// The pattern segment that matches exactly the given label.
    pub fn from_segment(value: &DomainSegment) -> (r: PatternSegment)
        ensures
            r@ == value@,
    {
        PatternSegment { text: value.as_str().to_owned() }
    }

    /// The segment's text.
    pub fn as_str(&self) -> (r: &str)
        ensures
            r@ == self@,
    {
        self.text.as_str()
    }

    /// True when this segment is the bare wildcard `*`.
    pub fn is_star(&self) -> (r: bool)
        ensures
            r == spec_is_wildcard(self@),
    {
        proof {
            reveal_strlit("*");
            if spec_is_wildcard(self@) {
                assert(self@ =~= "*"@);
            }
        }
        str_eq(self.text.as_str(), "*")
    }

    /// The segment's length in characters. Segments cannot be empty.
    pub fn len(&self) -> (r: usize)
        ensures
            r == self@.len(),
    {
        self.text.as_str().unicode_len()
    }

    /// Returns true if the pattern segment matches the provided domain
    /// segment.
    pub fn matches(&self, domain_segment: &DomainSegment) -> (r: bool)
        ensures
            r == spec_segment_matches(self@, domain_segment@),
    {
        if str_eq(self.text.as_str(), domain_segment.as_str()) {
            return true;
        }
        let n: usize = self.text.as_str().unicode_len();
        let star = find_star(self.text.as_str());
        let k: usize = match star {
            Option::None => {
                return false;
            },
            Option::Some(k) => k,
        };
        let dn: usize = domain_segment.len();
        let head: usize = k;
        let tail: usize = n - k - 1;
        proof {
            assert(self@.take(k as int).len() == k);
            assert(self@.skip(k as int + 1).len() == tail);
        }
        if dn < head || dn < tail {
            return false;
        }
        let mut j: usize = 0;
        while j < head
            invariant
                j <= head,
                head <= n,
                head <= dn,
                n == self@.len(),
                dn == domain_segment@.len(),
                self@ != domain_segment@,
                spec_first_star(self@, 0) == Option::<int>::Some(head as int),
                forall|t: int| 0 <= t < j ==> self@[t] == domain_segment@[t],
            decreases head - j,
        {
            if self.text.as_str().get_char(j) != domain_segment.as_str().get_char(j) {
                proof {
                    if spec_is_prefix(self@.take(head as int), domain_segment@) {
                        assert(domain_segment@.take(head as int)[j as int]
                            == domain_segment@[j as int]);
                        assert(self@.take(head as int)[j as int] == self@[j as int]);
                    }
                }
                return false;
            }
            j = j + 1;
        }
        proof {
            assert(domain_segment@.take(head as int) =~= self@.take(head as int));
        }
        let mut j: usize = 0;
        while j < tail
            invariant
                j <= tail,
                head + tail < n,
                tail == n - head - 1,
                tail <= dn,
                head <= dn,
                n == self@.len(),
                dn == domain_segment@.len(),
                self@ != domain_segment@,
                spec_first_star(self@, 0) == Option::<int>::Some(head as int),
                spec_is_prefix(self@.take(head as int), domain_segment@),
                forall|t: int|
                    0 <= t < j ==> #[trigger] self@[head + 1 + t] == domain_segment@[dn - tail
                        + t],
            decreases tail - j,
        {
            if self.text.as_str().get_char(head + 1 + j) != domain_segment.as_str().get_char(
                dn - tail + j,
            ) {
                proof {
                    if spec_is_suffix(self@.skip(head as int + 1), domain_segment@) {
                        assert(domain_segment@.skip(dn - tail)[j as int]
                            == domain_segment@[dn - tail + j as int]);
                        assert(self@.skip(head as int + 1)[j as int] == self@[head + 1 + j as int]);
                    }
                    assert(!spec_is_suffix(self@.skip(head as int + 1), domain_segment@));
                }
                return false;
            }
            j = j + 1;
        }
        proof {
            assert forall|t: int| 0 <= t < tail implies #[trigger] domain_segment@.skip(
                dn - tail,
            )[t] == self@.skip(head as int + 1)[t] by {
                assert(self@[head + 1 + t] == domain_segment@[dn - tail + t]);
            }
            assert(domain_segment@.skip(dn - tail) =~= self@.skip(head as int + 1));
        }
        true
    }
}

/// A whole-domain wildcard pattern: a sequence of pattern segments,
/// matched right to left against a candidate fully qualified name.
#[derive(Debug, PartialEq, Eq)]
pub struct Pattern {
    segments: Vec<PatternSegment>,
}

impl View for Pattern {
    type V = Seq<Seq<char>>;

    closed spec fn view(&self) -> Seq<Seq<char>> {
        self.segments.deep_view()
    }
}

impl Clone for Pattern {
    fn clone(&self) -> (r: Self)
        ensures
            r@ == self@,
    {
        let n: usize = self.segments.len();
        let mut segs: Vec<PatternSegment> = Vec::new();
        let mut i: usize = 0;
        while i < n
            invariant
                i <= n,
                n == self.segments.len(),
                segs.deep_view() =~= self.segments.deep_view().take(i as int),
            decreases n - i,
        {
            let ghost sv = segs.deep_view();
            segs.push(self.segments[i].clone());
            proof {
                assert(segs.deep_view() =~= sv.push(self.segments@[i as int]@));
                assert(segs.deep_view() =~= self.segments.deep_view().take(i as int + 1));
            }
            i = i + 1;
        }
        proof {
            assert(self.segments.deep_view().take(n as int) =~= self.segments.deep_view());
        }
        Pattern { segments: segs }
    }
}

impl Default for Pattern {
    /// The empty pattern, matching only the origin it is later anchored
    /// at.
    fn default() -> (r: Self)
        ensures
            r@ == Seq::<Seq<char>>::empty(),
    {
        let segs: Vec<PatternSegment> = Vec::new();
        proof {
            assert(segs.deep_view() =~= Seq::<Seq<char>>::empty());
        }
        Pattern { segments: segs }
    }
}

impl Pattern {
    /// Returns a pattern that only matches the origin of the parent FQDN.
    pub fn origin() -> (r: Self)
        ensures
            r@ == Seq::<Seq<char>>::empty(),
    {
        Pattern::default()
    }

    /// The segments of the pattern, most significant first.
    pub fn iter(&self) -> (r: &Vec<PatternSegment>)
        ensures
            r.deep_view() == self@,
    {
        &self.segments
    }

    /// Parses dotted pattern text; trailing separators are discarded, so
    /// fully and partially qualified text build the same pattern.
    pub fn try_from(value: &str) -> (r: Result<Pattern, PatternSegmentError>)
        ensures
            (match r {
                Result::Ok(p) => spec_parse_pattern(value@) == Result::<
                    Seq<Seq<char>>,
                    PatternSegmentError,
                >::Ok(p@),
                Result::Err(e) => spec_parse_pattern(value@) == Result::<
                    Seq<Seq<char>>,
                    PatternSegmentError,
                >::Err(e),
            }),
    {
        let n: usize = value.unicode_len();
        let mut end: usize = n;
        proof {
            assert(value@.take(n as int) =~= value@);
        }
        while end > 0 && value.get_char(end - 1) == '.'
            invariant
                end <= n,
                n == value@.len(),
                spec_trim_dots(value@) == spec_trim_dots(value@.take(end as int)),
            decreases end,
        {
            proof {
                assert(value@.take(end as int).drop_last() =~= value@.take(end as int - 1));
                assert(value@.take(end as int)[end as int - 1] == value@[end as int - 1]);
            }
            end = end - 1;
        }
        proof {
            if end > 0 {
                assert(value@.take(end as int)[end as int - 1] == value@[end as int - 1]);
            }
            assert(spec_trim_dots(value@.take(end as int)) == value@.take(end as int));
        }
        let body = value.substring_char(0, end);
        let parts = split_dots(body);
        let pn: usize = parts.len();
        let mut segs: Vec<PatternSegment> = Vec::new();
        let mut j: usize = 0;
        while j < pn
            invariant
                j <= pn,
                pn == parts.len(),
                parts.deep_view() == spec_split_dots(spec_trim_dots(value@)),
                (match spec_parse_pattern_parts(parts.deep_view(), j as int) {
                    Result::Ok(rest) => spec_parse_pattern_parts(parts.deep_view(), 0)
                        == Result::<Seq<Seq<char>>, PatternSegmentError>::Ok(
                        segs.deep_view() + rest,
                    ),
                    Result::Err(e) => spec_parse_pattern_parts(parts.deep_view(), 0)
                        == Result::<Seq<Seq<char>>, PatternSegmentError>::Err(e),
                }),
            decreases pn - j,
        {
            proof {
                assert(parts.deep_view()[j as int] == parts@[j as int]@);
            }
            match PatternSegment::try_from(parts[j].as_str()) {
                Result::Err(e) => {
                    return Result::Err(e);
                },
                Result::Ok(seg) => {
                    let ghost sv = segs.deep_view();
                    segs.push(seg);
                    proof {
                        assert(segs.deep_view() =~= sv.push(seg@));
                        if spec_parse_pattern_parts(parts.deep_view(), j as int + 1) is Ok {
                            let rest = spec_parse_pattern_parts(
                                parts.deep_view(),
                                j as int + 1,
                            )->Ok_0;
                            assert(sv.push(seg@) + rest =~= sv + (seq![seg@] + rest));
                        }
                    }
                },
            }
            j = j + 1;
        }
        proof {
            assert(segs.deep_view() + Seq::<Seq<char>>::empty() =~= segs.deep_view());
        }
        Result::Ok(Pattern { segments: segs })
    }

    /// Returns a new pattern with the origin appended.
    pub fn with_origin(&self, origin: &FullyQualifiedDomainName) -> (r: Pattern)
        ensures
            r@ == self@ + origin@,
    {
        let mut cloned = self.clone();
        let osegs = origin.iter();
        let n: usize = osegs.len();
        let mut i: usize = 0;
        proof {
            assert(cloned.segments.deep_view() + origin@.take(0) =~= self@);
        }
        while i < n
            invariant
                i <= n,
                n == osegs.len(),
                osegs.deep_view() == origin@,
                cloned.segments.deep_view() =~= self@ + origin@.take(i as int),
            decreases n - i,
        {
            let ghost cv = cloned.segments.deep_view();
            cloned.segments.push(PatternSegment::from_segment(&osegs[i]));
            proof {
                assert(cloned.segments.deep_view() =~= cv.push(osegs@[i as int]@));
                assert(cloned.segments.deep_view() =~= self@ + origin@.take(i as int + 1));
            }
            i = i + 1;
        }
        proof {
            assert(origin@.take(n as int) =~= origin@);
        }
        cloned
    }

    /// The pattern's dotted text, one separator after every segment.
    pub fn to_text(&self) -> (r: String)
        ensures
            r@ == spec_fqdn_text(self@),
    {
        let n: usize = self.segments.len();
        let mut out = String::new();
        let mut i: usize = 0;
        proof {
            reveal_strlit(".");
            assert(self@.skip(0) =~= self@);
            assert(out@ + spec_fqdn_text(self@) =~= spec_fqdn_text(self@));
        }
        while i < n
            invariant
                i <= n,
                n == self.segments.len(),
                "."@ == seq!['.'],
                out@ + spec_fqdn_text(self@.skip(i as int)) == spec_fqdn_text(self@),
            decreases n - i,
        {
            proof {
                assert(self@.skip(i as int)[0] == self@[i as int]);
                assert(self@.skip(i as int).skip(1) =~= self@.skip(i as int + 1));
            }
            out.append(self.segments[i].as_str());
            out.append(".");
            i = i + 1;
        }
        proof {
            assert(self@.skip(n as int) =~= Seq::<Seq<char>>::empty());
            assert(out@ + Seq::<char>::empty() =~= out@);
        }
        out
    }

    /// Returns true if the pattern matches the given domain.
    pub fn matches(&self, domain: &FullyQualifiedDomainName) -> (r: bool)
        ensures
            r == spec_pattern_matches(self@, domain@),
    {
        let dsegs = domain.iter();
        let dn: usize = dsegs.len();
        let pn: usize = self.segments.len();
        if dn < pn {
            return false;
        }
        if dn > pn {
            // Domains longer than patterns can never match, unless the
            // first segment of the pattern is a standalone wildcard (*).
            if pn == 0 {
                return false;
            }
            if !self.segments[0].is_star() {
                return false;
            }
        }
        let mut k: usize = 0;
        while k < pn
            invariant
                k <= pn,
                pn == self.segments.len(),
                dn == dsegs.len(),
                dsegs.deep_view() == domain@,
                pn <= dn,
                dn > pn ==> pn > 0 && spec_is_wildcard(self@[0]),
                spec_match_rtl(self@, domain@, 0) == spec_match_rtl(self@, domain@, k as int),
            decreases pn - k,
        {
            proof {
                assert(self@[pn - 1 - k as int] == self.segments@[pn - 1 - k as int]@);
                assert(domain@[dn - 1 - k as int] == dsegs@[dn - 1 - k as int]@);
            }
            // A pattern segment containing only a wildcard matches the
            // rest of the domain segments automatically.
            if self.segments[pn - 1 - k].is_star() {
                proof {
                    assert(spec_match_rtl(self@, domain@, k as int));
                }
                return true;
            }
            if !self.segments[pn - 1 - k].matches(&dsegs[dn - 1 - k]) {
                proof {
                    assert(!spec_match_rtl(self@, domain@, k as int));
                }
                return false;
            }
            k = k + 1;
        }
        proof {
            assert(spec_match_rtl(self@, domain@, pn as int));
        }
        true
    }
}

/// Trailing separators do not change what a pattern means: text with and
/// without them parses to the same pattern, and patterns with equal
/// segments agree on every match.
pub proof fn lemma_pattern_qualification_insensitive(s: Seq<char>)
    ensures
        spec_parse_pattern(s.push('.')) == spec_parse_pattern(s),
        forall|d: Seq<Seq<char>>|
            spec_parse_pattern(s) is Ok ==> spec_pattern_matches(
                spec_parse_pattern(s.push('.'))->Ok_0,
                d,
            ) == #[trigger] spec_pattern_matches(spec_parse_pattern(s)->Ok_0, d),
{
    assert(s.push('.').drop_last() =~= s);
    assert(spec_trim_dots(s.push('.')) == spec_trim_dots(s));
}

} // verus!
