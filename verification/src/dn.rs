//! The domain-name model: dotted text is split into validated labels and
//! becomes either a [`FullyQualifiedDomainName`] (anchored at the root by a
//! trailing separator) or a [`PartiallyQualifiedDomainName`] (relative to an
//! origin not yet known), with [`DomainName`] the sum of the two.

use vstd::prelude::*;

use crate::segment::{
    spec_is_wildcard, spec_parse_segment, DomainSegment, DomainSegmentError,
};
use crate::text::{push_char, str_eq};

verus! {

/// Produced when attempting to construct a [`DomainName`] from an invalid
/// string.
#[derive(Debug, Clone, PartialEq, Eq)]
pub enum DomainNameError {
    /// One of the labels is invalid.
    SegmentError(DomainSegmentError),
    /// Wildcards must only appear in the very first segment of a domain.
    NonLeadingWildcard,
}

/// Produced when attempting to construct a [`FullyQualifiedDomainName`]
/// from an invalid string.
#[derive(Debug, Clone, PartialEq, Eq)]
pub enum FullyQualifiedDomainNameError {
    /// One of the labels is invalid.
    SegmentError(DomainSegmentError),
    /// Wildcards must only appear in the very first segment of a domain.
    NonLeadingWildcard,
    /// The text has no trailing separator, so it only names a partially
    /// qualified domain.
    DomainIsPartiallyQualified,
}

/// Produced when attempting to construct a [`PartiallyQualifiedDomainName`]
/// from an invalid string.
#[derive(Debug, Clone, PartialEq, Eq)]
pub enum PartiallyQualifiedDomainNameError {
    /// One of the labels is invalid.
    SegmentError(DomainSegmentError),
    /// Wildcards must only appear in the very first segment of a domain.
    NonLeadingWildcard,
    /// The text ends in a separator, so it names a fully qualified domain.
    DomainIsFullyQualified,
}

/// Splitting on `.`, accumulator form: `cur` is the part being read and
/// `acc` the parts already read.
pub open spec fn spec_split_rec(s: Seq<char>, cur: Seq<char>, acc: Seq<Seq<char>>) -> Seq<
    Seq<char>,
>
    decreases s.len(),
{
    if s.len() == 0 {
        acc.push(cur)
    } else if s[0] == '.' {
        spec_split_rec(s.skip(1), Seq::empty(), acc.push(cur))
    } else {
        spec_split_rec(s.skip(1), cur.push(s[0]), acc)
    }
}

/// The parts of `s` split on `.`; one more part than there are dots, and
/// empty parts are kept.
pub open spec fn spec_split_dots(s: Seq<char>) -> Seq<Seq<char>> {
    spec_split_rec(s, Seq::empty(), Seq::empty())
}

/// Parses the parts of a dotted name from index `i` on: each part must be a
/// valid label, and a wildcard label is only admitted as the very first
/// part. The first failure, scanning left to right, wins.
pub open spec fn spec_parse_parts(parts: Seq<Seq<char>>, i: int) -> Result<
    Seq<Seq<char>>,
    DomainNameError,
>
    decreases parts.len() - i,
{
    if i < 0 || i >= parts.len() {
        Result::Ok(Seq::empty())
    } else {
        match spec_parse_segment(parts[i]) {
            Result::Err(e) => Result::Err(DomainNameError::SegmentError(e)),
            Result::Ok(t) => {
                if spec_is_wildcard(t) && i > 0 {
                    Result::Err(DomainNameError::NonLeadingWildcard)
                } else {
                    match spec_parse_parts(parts, i + 1) {
                        Result::Err(e) => Result::Err(e),
                        Result::Ok(rest) => Result::Ok(seq![t] + rest),
                    }
                }
            },
        }
    }
}

pub open spec fn spec_fqdn_err_of(e: DomainNameError) -> FullyQualifiedDomainNameError {
    match e {
        DomainNameError::SegmentError(se) => FullyQualifiedDomainNameError::SegmentError(se),
        DomainNameError::NonLeadingWildcard => FullyQualifiedDomainNameError::NonLeadingWildcard,
    }
}

pub open spec fn spec_pqdn_err_of(e: DomainNameError) -> PartiallyQualifiedDomainNameError {
    match e {
        DomainNameError::SegmentError(se) => PartiallyQualifiedDomainNameError::SegmentError(se),
        DomainNameError::NonLeadingWildcard
            => PartiallyQualifiedDomainNameError::NonLeadingWildcard,
    }
}

/// What constructing a [`FullyQualifiedDomainName`] from `s` yields. Text
/// without the trailing separator is still validated label by label before
/// being reported as partially qualified.
pub open spec fn spec_parse_fqdn(s: Seq<char>) -> Result<
    Seq<Seq<char>>,
    FullyQualifiedDomainNameError,
> {
    if s.len() == 0 {
        Result::Err(
            FullyQualifiedDomainNameError::SegmentError(DomainSegmentError::EmptyString),
        )
    } else if s[s.len() - 1] != '.' {
        match spec_parse_parts(spec_split_dots(s), 0) {
            Result::Err(e) => Result::Err(spec_fqdn_err_of(e)),
            Result::Ok(_) => Result::Err(
                FullyQualifiedDomainNameError::DomainIsPartiallyQualified,
            ),
        }
    } else {
        match spec_parse_parts(spec_split_dots(s.drop_last()), 0) {
            Result::Err(e) => Result::Err(spec_fqdn_err_of(e)),
            Result::Ok(t) => Result::Ok(t),
        }
    }
}

/// What constructing a [`PartiallyQualifiedDomainName`] from `s` yields.
pub open spec fn spec_parse_pqdn(s: Seq<char>) -> Result<
    Seq<Seq<char>>,
    PartiallyQualifiedDomainNameError,
> {
    if s.len() > 0 && s[s.len() - 1] == '.' {
        Result::Err(PartiallyQualifiedDomainNameError::DomainIsFullyQualified)
    } else {
        match spec_parse_parts(spec_split_dots(s), 0) {
            Result::Err(e) => Result::Err(spec_pqdn_err_of(e)),
            Result::Ok(t) => Result::Ok(t),
        }
    }
}

/// What constructing a [`DomainName`] from `s` yields: text ending in the
/// separator is always fully qualified, all other valid text partially
/// qualified. The boolean is true for a fully qualified result.
pub open spec fn spec_parse_domain_name(s: Seq<char>) -> Result<
    (bool, Seq<Seq<char>>),
    DomainNameError,
> {
    match spec_parse_fqdn(s) {
        Result::Ok(t) => Result::Ok((true, t)),
        Result::Err(FullyQualifiedDomainNameError::SegmentError(se)) => Result::Err(
            DomainNameError::SegmentError(se),
        ),
        Result::Err(FullyQualifiedDomainNameError::NonLeadingWildcard) => Result::Err(
            DomainNameError::NonLeadingWildcard,
        ),
        Result::Err(FullyQualifiedDomainNameError::DomainIsPartiallyQualified) => {
            match spec_parse_pqdn(s) {
                Result::Ok(t) => Result::Ok((false, t)),
                Result::Err(PartiallyQualifiedDomainNameError::SegmentError(se)) => Result::Err(
                    DomainNameError::SegmentError(se),
                ),
                Result::Err(_) => Result::Err(DomainNameError::NonLeadingWildcard),
            }
        },
    }
}

/// A fully qualified name that was only reported as partially qualified
/// parses as a partial name with the same labels.
pub proof fn lemma_partial_after_full(s: Seq<char>)
    ensures
        spec_parse_fqdn(s) == Result::<Seq<Seq<char>>, FullyQualifiedDomainNameError>::Err(
            FullyQualifiedDomainNameError::DomainIsPartiallyQualified,
        ) ==> spec_parse_pqdn(s) is Ok,
{
}

/// The dotted text of a fully qualified name: every label is followed by
/// the separator, the root anchor included.
pub open spec fn spec_fqdn_text(segs: Seq<Seq<char>>) -> Seq<char>
    decreases segs.len(),
{
    if segs.len() == 0 {
        Seq::empty()
    } else {
        segs[0] + seq!['.'] + spec_fqdn_text(segs.skip(1))
    }
}

/// `.label` for every label of `t`, in order.
pub open spec fn spec_dot_join(t: Seq<Seq<char>>) -> Seq<char>
    decreases t.len(),
{
    if t.len() == 0 {
        Seq::empty()
    } else {
        seq!['.'] + t[0] + spec_dot_join(t.skip(1))
    }
}

/// The dotted text of a partially qualified name: labels separated by `.`,
/// no trailing separator.
pub open spec fn spec_pqdn_text(segs: Seq<Seq<char>>) -> Seq<char> {
    if segs.len() == 0 {
        Seq::empty()
    } else {
        segs[0] + spec_dot_join(segs.skip(1))
    }
}

/// `parent` names a zone strictly above `child`: its labels are a proper
/// suffix of the child's labels.
pub open spec fn spec_is_subdomain_of(child: Seq<Seq<char>>, parent: Seq<Seq<char>>) -> bool {
    parent.len() < child.len() && child.skip(child.len() - parent.len()) == parent
}

/// Splits `s` on `.`; empty parts are kept, and `n` dots yield `n + 1`
/// parts.
pub fn split_dots(s: &str) -> (parts: Vec<String>)
    ensures
        parts.deep_view() == spec_split_dots(s@),
{
    let n: usize = s.unicode_len();
    let mut parts: Vec<String> = Vec::new();
    let mut cur = String::new();
    let mut i: usize = 0;
    proof {
        assert(s@.skip(0) =~= s@);
        assert(parts.deep_view() =~= Seq::<Seq<char>>::empty());
    }
    while i < n
        invariant
            i <= n,
            n == s@.len(),
            spec_split_rec(s@.skip(i as int), cur@, parts.deep_view()) == spec_split_dots(s@),
        decreases n - i,
    {
        let c = s.get_char(i);
        proof {
            assert(s@.skip(i as int)[0] == s@[i as int]);
            assert(s@.skip(i as int).skip(1) =~= s@.skip(i as int + 1));
        }
        if c == '.' {
            let ghost pv = parts.deep_view();
            let ghost cv = cur@;
            parts.push(cur);
            cur = String::new();
            proof {
                assert(parts.deep_view() =~= pv.push(cv));
            }
        } else {
            push_char(&mut cur, c);
        }
        i = i + 1;
    }
    let ghost pv = parts.deep_view();
    let ghost cv = cur@;
    parts.push(cur);
    proof {
        assert(parts.deep_view() =~= pv.push(cv));
    }
    parts
}

/// Parses every part as a label, rejecting wildcard labels anywhere but
/// first; the first failure, scanning left to right, wins.
pub fn parse_parts(parts: &Vec<String>) -> (r: Result<Vec<DomainSegment>, DomainNameError>)
    ensures
        (match r {
            Result::Ok(segs) => spec_parse_parts(parts.deep_view(), 0) == Result::<
                Seq<Seq<char>>,
                DomainNameError,
            >::Ok(segs.deep_view()),
            Result::Err(e) => spec_parse_parts(parts.deep_view(), 0) == Result::<
                Seq<Seq<char>>,
                DomainNameError,
            >::Err(e),
        }),
{
    let n: usize = parts.len();
    let mut segs: Vec<DomainSegment> = Vec::new();
    let mut j: usize = 0;
    while j < n
        invariant
            j <= n,
            n == parts.len(),
            segs.len() == j,
            (match spec_parse_parts(parts.deep_view(), j as int) {
                Result::Ok(rest) => spec_parse_parts(parts.deep_view(), 0) == Result::<
                    Seq<Seq<char>>,
                    DomainNameError,
                >::Ok(segs.deep_view() + rest),
                Result::Err(e) => spec_parse_parts(parts.deep_view(), 0) == Result::<
                    Seq<Seq<char>>,
                    DomainNameError,
                >::Err(e),
            }),
        decreases n - j,
    {
        proof {
            assert(parts.deep_view()[j as int] == parts@[j as int]@);
        }
        match DomainSegment::try_from(parts[j].as_str()) {
            Result::Err(e) => {
                return Result::Err(DomainNameError::SegmentError(e));
            },
            Result::Ok(seg) => {
                if seg.is_wildcard() && j > 0 {
                    return Result::Err(DomainNameError::NonLeadingWildcard);
                }
                let ghost sv = segs.deep_view();
                segs.push(seg);
                proof {
                    assert(segs.deep_view() =~= sv.push(seg@));
                    if spec_parse_parts(parts.deep_view(), j as int + 1) is Ok {
                        let rest = spec_parse_parts(
                            parts.deep_view(),
                            j as int + 1,
                        )->Ok_0;
                        assert(sv.push(seg@) + rest =~= sv + (seq![seg@] + rest));
                    }
                }
            },
        }
        j = j + 1;
    }
    proof {
        assert(segs.deep_view() + Seq::<Seq<char>>::empty() =~= segs.deep_view());
    }
    Result::Ok(segs)
}

/// A domain name anchored at the DNS root: its text carries a trailing
/// separator.
#[derive(Debug, PartialEq, Eq)]
pub struct FullyQualifiedDomainName {
    segments: Vec<DomainSegment>,
}

/// A domain name relative to some origin not yet known.
#[derive(Debug, PartialEq, Eq)]
pub struct PartiallyQualifiedDomainName {
    segments: Vec<DomainSegment>,
}

impl View for FullyQualifiedDomainName {
    type V = Seq<Seq<char>>;

    closed spec fn view(&self) -> Seq<Seq<char>> {
        self.segments.deep_view()
    }
}

impl View for PartiallyQualifiedDomainName {
    type V = Seq<Seq<char>>;

    closed spec fn view(&self) -> Seq<Seq<char>> {
        self.segments.deep_view()
    }
}

impl DeepView for FullyQualifiedDomainName {
    type V = Seq<Seq<char>>;

    open spec fn deep_view(&self) -> Seq<Seq<char>> {
        self.view()
    }
}

impl DeepView for PartiallyQualifiedDomainName {
    type V = Seq<Seq<char>>;

    open spec fn deep_view(&self) -> Seq<Seq<char>> {
        self.view()
    }
}

/// Copies a label list, keeping its contents.
fn clone_segments(v: &Vec<DomainSegment>) -> (r: Vec<DomainSegment>)
    ensures
        r.deep_view() == v.deep_view(),
{
    let n: usize = v.len();
    let mut r: Vec<DomainSegment> = Vec::new();
    let mut i: usize = 0;
    while i < n
        invariant
            i <= n,
            n == v.len(),
            r.deep_view() =~= v.deep_view().take(i as int),
        decreases n - i,
    {
        let ghost rv = r.deep_view();
        r.push(v[i].clone());
        proof {
            assert(r.deep_view() =~= rv.push(v@[i as int]@));
            assert(r.deep_view() =~= v.deep_view().take(i as int + 1));
        }
        i = i + 1;
    }
    proof {
        assert(v.deep_view().take(n as int) =~= v.deep_view());
    }
    r
}

/// Appends every label of `src` to `dst`, in order.
fn append_segments(dst: &mut Vec<DomainSegment>, src: &Vec<DomainSegment>)
    ensures
        final(dst).deep_view() == old(dst).deep_view() + src.deep_view(),
{
    let n: usize = src.len();
    let mut i: usize = 0;
    while i < n
        invariant
            i <= n,
            n == src.len(),
            dst.deep_view() =~= old(dst).deep_view() + src.deep_view().take(i as int),
        decreases n - i,
    {
        let ghost dv = dst.deep_view();
        dst.push(src[i].clone());
        proof {
            assert(dst.deep_view() =~= dv.push(src@[i as int]@));
            assert(dst.deep_view() =~= old(dst).deep_view() + src.deep_view().take(
                i as int + 1,
            ));
        }
        i = i + 1;
    }
    proof {
        assert(src.deep_view().take(n as int) =~= src.deep_view());
        assert(dst.deep_view() =~= old(dst).deep_view() + src.deep_view());
    }
}

impl Clone for FullyQualifiedDomainName {
    fn clone(&self) -> (r: Self)
        ensures
            r@ == self@,
    {
        FullyQualifiedDomainName { segments: clone_segments(&self.segments) }
    }
}

impl Clone for PartiallyQualifiedDomainName {
    fn clone(&self) -> (r: Self)
        ensures
            r@ == self@,
    {
        PartiallyQualifiedDomainName { segments: clone_segments(&self.segments) }
    }
}

/// Renders `segs` as fully qualified dotted text, one trailing separator
/// per label.
fn fqdn_text_of(segs: &Vec<DomainSegment>) -> (r: String)
    ensures
        r@ == spec_fqdn_text(segs.deep_view()),
{
    let n: usize = segs.len();
    let mut out = String::new();
    let mut i: usize = 0;
    proof {
        reveal_strlit(".");
        assert(segs.deep_view().skip(0) =~= segs.deep_view());
        assert(out@ + spec_fqdn_text(segs.deep_view()) =~= spec_fqdn_text(segs.deep_view()));
    }
    while i < n
        invariant
            i <= n,
            n == segs.len(),
            "."@ == seq!['.'],
            out@ + spec_fqdn_text(segs.deep_view().skip(i as int)) == spec_fqdn_text(
                segs.deep_view(),
            ),
        decreases n - i,
    {
        proof {
            assert(segs.deep_view().skip(i as int)[0] == segs.deep_view()[i as int]);
            assert(segs.deep_view().skip(i as int).skip(1) =~= segs.deep_view().skip(
                i as int + 1,
            ));
        }
        out.append(segs[i].as_str());
        out.append(".");
        i = i + 1;
    }
    proof {
        assert(segs.deep_view().skip(n as int) =~= Seq::<Seq<char>>::empty());
        assert(out@ + Seq::<char>::empty() =~= out@);
    }
    out
}

impl FullyQualifiedDomainName {
    /// Parses fully qualified dotted text; text without the trailing
    /// separator is reported as partially qualified once its labels have
    /// been validated.
    pub fn try_from(value: &str) -> (r: Result<
        FullyQualifiedDomainName,
        FullyQualifiedDomainNameError,
    >)
        ensures
            (match r {
                Result::Ok(f) => spec_parse_fqdn(value@) == Result::<
                    Seq<Seq<char>>,
                    FullyQualifiedDomainNameError,
                >::Ok(f@),
                Result::Err(e) => spec_parse_fqdn(value@) == Result::<
                    Seq<Seq<char>>,
                    FullyQualifiedDomainNameError,
                >::Err(e),
            }),
    {
        let n: usize = value.unicode_len();
        if n == 0 {
            return Result::Err(
                FullyQualifiedDomainNameError::SegmentError(DomainSegmentError::EmptyString),
            );
        }
        if value.get_char(n - 1) != '.' {
            let parts = split_dots(value);
            match parse_parts(&parts) {
                Result::Err(DomainNameError::SegmentError(se)) => Result::Err(
                    FullyQualifiedDomainNameError::SegmentError(se),
                ),
                Result::Err(DomainNameError::NonLeadingWildcard) => Result::Err(
                    FullyQualifiedDomainNameError::NonLeadingWildcard,
                ),
                Result::Ok(_) => Result::Err(
                    FullyQualifiedDomainNameError::DomainIsPartiallyQualified,
                ),
            }
        } else {
            let body = value.substring_char(0, n - 1);
            proof {
                assert(body@ =~= value@.drop_last());
            }
            let parts = split_dots(body);
            match parse_parts(&parts) {
                Result::Err(DomainNameError::SegmentError(se)) => Result::Err(
                    FullyQualifiedDomainNameError::SegmentError(se),
                ),
                Result::Err(DomainNameError::NonLeadingWildcard) => Result::Err(
                    FullyQualifiedDomainNameError::NonLeadingWildcard,
                ),
                Result::Ok(segs) => Result::Ok(FullyQualifiedDomainName { segments: segs }),
            }
        }
    }

    /// The labels of the name, most significant first.
    pub fn iter(&self) -> (r: &Vec<DomainSegment>)
        ensures
            r.deep_view() == self@,
    {
        &self.segments
    }

    /// The name's dotted text, trailing separator included.
    pub fn to_text(&self) -> (r: String)
        ensures
            r@ == spec_fqdn_text(self@),
    {
        fqdn_text_of(&self.segments)
    }

    /// The length of the name's text; the trailing separator counts.
    pub fn len(&self) -> (r: usize)
        ensures
            r == spec_fqdn_text(self@).len(),
    {
        let t = self.to_text();
        t.as_str().unicode_len()
    }

    /// Compares two names label by label.
    pub fn equals(&self, other: &FullyQualifiedDomainName) -> (r: bool)
        ensures
            r == (self@ == other@),
    {
        let n: usize = self.segments.len();
        if other.segments.len() != n {
            proof {
                assert(self@.len() != other@.len());
            }
            return false;
        }
        let mut i: usize = 0;
        while i < n
            invariant
                i <= n,
                n == self.segments.len(),
                n == other.segments.len(),
                forall|j: int| 0 <= j < i ==> self@[j] == other@[j],
            decreases n - i,
        {
            if !str_eq(self.segments[i].as_str(), other.segments[i].as_str()) {
                proof {
                    assert(self@[i as int] != other@[i as int]);
                }
                return false;
            }
            i = i + 1;
        }
        proof {
            assert(self@ =~= other@);
        }
        true
    }

    /// True when `other` names a zone strictly above this name.
    pub fn is_subdomain_of(&self, other: &FullyQualifiedDomainName) -> (r: bool)
        ensures
            r == spec_is_subdomain_of(self@, other@),
    {
        let cn: usize = self.segments.len();
        let pn: usize = other.segments.len();
        if pn >= cn {
            return false;
        }
        let mut k: usize = 0;
        while k < pn
            invariant
                k <= pn,
                pn < cn,
                cn == self.segments.len(),
                pn == other.segments.len(),
                forall|j: int| 0 <= j < k ==> self@[cn - pn + j] == other@[j],
            decreases pn - k,
        {
            if !str_eq(self.segments[cn - pn + k].as_str(), other.segments[k].as_str()) {
                proof {
                    assert(self@[cn - pn + k as int] != other@[k as int]);
                    if self@.skip(cn - pn) == other@ {
                        assert(self@.skip(cn - pn)[k as int] == self@[cn - pn + k as int]);
                    }
                }
                return false;
            }
            k = k + 1;
        }
        proof {
            assert(self@.skip(cn - pn) =~= other@);
        }
        true
    }

    /// Reinterprets the same labels as a partially qualified name,
    /// consuming this one.
    pub fn into_partially_qualified(self) -> (r: PartiallyQualifiedDomainName)
        ensures
            r@ == self@,
    {
        PartiallyQualifiedDomainName { segments: self.segments }
    }

    /// Reinterprets the same labels as a partially qualified name.
    pub fn to_partially_qualified(&self) -> (r: PartiallyQualifiedDomainName)
        ensures
            r@ == self@,
    {
        PartiallyQualifiedDomainName { segments: clone_segments(&self.segments) }
    }
}

impl PartiallyQualifiedDomainName {
    /// Parses partially qualified dotted text; a trailing separator is
    /// rejected as fully qualified.
    pub fn try_from(value: &str) -> (r: Result<
        PartiallyQualifiedDomainName,
        PartiallyQualifiedDomainNameError,
    >)
        ensures
            (match r {
                Result::Ok(p) => spec_parse_pqdn(value@) == Result::<
                    Seq<Seq<char>>,
                    PartiallyQualifiedDomainNameError,
                >::Ok(p@),
                Result::Err(e) => spec_parse_pqdn(value@) == Result::<
                    Seq<Seq<char>>,
                    PartiallyQualifiedDomainNameError,
                >::Err(e),
            }),
    {
        let n: usize = value.unicode_len();
        if n > 0 && value.get_char(n - 1) == '.' {
            return Result::Err(PartiallyQualifiedDomainNameError::DomainIsFullyQualified);
        }
        let parts = split_dots(value);
        match parse_parts(&parts) {
            Result::Err(DomainNameError::SegmentError(se)) => Result::Err(
                PartiallyQualifiedDomainNameError::SegmentError(se),
            ),
            Result::Err(DomainNameError::NonLeadingWildcard) => Result::Err(
                PartiallyQualifiedDomainNameError::NonLeadingWildcard,
            ),
            Result::Ok(segs) => Result::Ok(PartiallyQualifiedDomainName { segments: segs }),
        }
    }

    /// The labels of the name, most significant first.
    pub fn iter(&self) -> (r: &Vec<DomainSegment>)
        ensures
            r.deep_view() == self@,
    {
        &self.segments
    }

    /// The name's dotted text, with no trailing separator.
    pub fn to_text(&self) -> (r: String)
        ensures
            r@ == spec_pqdn_text(self@),
    {
        let n: usize = self.segments.len();
        let mut out = String::new();
        if n == 0 {
            return out;
        }
        out.append(self.segments[0].as_str());
        let mut i: usize = 1;
        proof {
            reveal_strlit(".");
            assert(out@ + spec_dot_join(self@.skip(1)) == spec_pqdn_text(self@));
        }
        while i < n
            invariant
                1 <= i <= n,
                n == self.segments.len(),
                "."@ == seq!['.'],
                out@ + spec_dot_join(self@.skip(i as int)) == spec_pqdn_text(self@),
            decreases n - i,
        {
            proof {
                assert(self@.skip(i as int)[0] == self@[i as int]);
                assert(self@.skip(i as int).skip(1) =~= self@.skip(i as int + 1));
            }
            out.append(".");
            out.append(self.segments[i].as_str());
            i = i + 1;
        }
        proof {
            assert(self@.skip(n as int) =~= Seq::<Seq<char>>::empty());
            assert(out@ + Seq::<char>::empty() =~= out@);
        }
        out
    }

    /// The length of the name's text.
    pub fn len(&self) -> (r: usize)
        ensures
            r == spec_pqdn_text(self@).len(),
    {
        let t = self.to_text();
        t.as_str().unicode_len()
    }

    /// Anchors this name at `origin`: the result's labels are these labels
    /// followed by the origin's.
    pub fn with_origin(&self, origin: &FullyQualifiedDomainName) -> (r: FullyQualifiedDomainName)
        ensures
            r@ == self@ + origin@,
    {
        let mut segs = clone_segments(&self.segments);
        append_segments(&mut segs, origin.iter());
        FullyQualifiedDomainName { segments: segs }
    }

    /// Reinterprets the same labels as anchored at the root, consuming
    /// this name.
    pub fn into_fully_qualified(self) -> (r: FullyQualifiedDomainName)
        ensures
            r@ == self@,
    {
        FullyQualifiedDomainName { segments: self.segments }
    }

    /// Reinterprets the same labels as anchored at the root.
    pub fn to_fully_qualified(&self) -> (r: FullyQualifiedDomainName)
        ensures
            r@ == self@,
    {
        FullyQualifiedDomainName { segments: clone_segments(&self.segments) }
    }
}

/// Either a [`FullyQualifiedDomainName`] or a [`PartiallyQualifiedDomainName`].
#[derive(Debug, PartialEq, Eq)]
pub enum DomainName {
    /// Domain name is fully qualified.
    Full(FullyQualifiedDomainName),
    /// Domain name is partially qualified.
    Partial(PartiallyQualifiedDomainName),
}

impl Clone for DomainName {
    fn clone(&self) -> (r: Self)
        ensures
            r.spec_is_full() == self.spec_is_full(),
            r.spec_segments() == self.spec_segments(),
    {
        match self {
            DomainName::Full(full) => DomainName::Full(full.clone()),
            DomainName::Partial(partial) => DomainName::Partial(partial.clone()),
        }
    }
}

impl DomainName {
    /// The labels of the held name.
    pub open spec fn spec_segments(&self) -> Seq<Seq<char>> {
        match self {
            DomainName::Full(full) => full@,
            DomainName::Partial(partial) => partial@,
        }
    }

    /// True when the held name is fully qualified.
    pub open spec fn spec_is_full(&self) -> bool {
        self is Full
    }

    /// Parses dotted text: a trailing separator yields a fully qualified
    /// name, its absence a partially qualified one.
    pub fn try_from(value: &str) -> (r: Result<DomainName, DomainNameError>)
        ensures
            (match r {
                Result::Ok(dn) => spec_parse_domain_name(value@) == Result::<
                    (bool, Seq<Seq<char>>),
                    DomainNameError,
                >::Ok((dn.spec_is_full(), dn.spec_segments())),
                Result::Err(e) => spec_parse_domain_name(value@) == Result::<
                    (bool, Seq<Seq<char>>),
                    DomainNameError,
                >::Err(e),
            }),
    {
        match FullyQualifiedDomainName::try_from(value) {
            Result::Ok(full) => Result::Ok(DomainName::Full(full)),
            Result::Err(FullyQualifiedDomainNameError::SegmentError(se)) => Result::Err(
                DomainNameError::SegmentError(se),
            ),
            Result::Err(FullyQualifiedDomainNameError::NonLeadingWildcard) => Result::Err(
                DomainNameError::NonLeadingWildcard,
            ),
            Result::Err(FullyQualifiedDomainNameError::DomainIsPartiallyQualified) => {
                proof {
                    lemma_partial_after_full(value@);
                }
                match PartiallyQualifiedDomainName::try_from(value) {
                    Result::Ok(partial) => Result::Ok(DomainName::Partial(partial)),
                    Result::Err(_) => vstd::pervasive::unreached(),
                }
            },
        }
    }

    /// Returns true if domain is fully qualified.
    pub fn is_fully_qualified(&self) -> (r: bool)
        ensures
            r == self.spec_is_full(),
    {
        match self {
            DomainName::Full(_) => true,
            DomainName::Partial(_) => false,
        }
    }

    /// Returns true if domain is only partially qualified.
    pub fn is_partially_qualified(&self) -> (r: bool)
        ensures
            r == !self.spec_is_full(),
    {
        match self {
            DomainName::Full(_) => false,
            DomainName::Partial(_) => true,
        }
    }

    /// The contained partially qualified domain, if that is what is held.
    pub fn as_partial(&self) -> (r: Option<&PartiallyQualifiedDomainName>)
        ensures
            (match r {
                Option::Some(p) => !self.spec_is_full() && p@ == self.spec_segments(),
                Option::None => self.spec_is_full(),
            }),
    {
        match self {
            DomainName::Partial(partial) => Option::Some(partial),
            _ => Option::None,
        }
    }

    /// The contained fully qualified domain, if that is what is held.
    pub fn as_full(&self) -> (r: Option<&FullyQualifiedDomainName>)
        ensures
            (match r {
                Option::Some(f) => self.spec_is_full() && f@ == self.spec_segments(),
                Option::None => !self.spec_is_full(),
            }),
    {
        match self {
            DomainName::Full(full) => Option::Some(full),
            _ => Option::None,
        }
    }

    /// The contained labels as a fully qualified name, consuming this one.
    pub fn into_fully_qualified(self) -> (r: FullyQualifiedDomainName)
        ensures
            r@ == self.spec_segments(),
    {
        match self {
            DomainName::Full(full) => full,
            DomainName::Partial(partial) => partial.into_fully_qualified(),
        }
    }

    /// The contained labels as a partially qualified name, consuming this
    /// one.
    pub fn into_partially_qualified(self) -> (r: PartiallyQualifiedDomainName)
        ensures
            r@ == self.spec_segments(),
    {
        match self {
            DomainName::Full(full) => full.into_partially_qualified(),
            DomainName::Partial(partial) => partial,
        }
    }

    /// The contained labels as a fully qualified name.
    pub fn to_fully_qualified(&self) -> (r: FullyQualifiedDomainName)
        ensures
            r@ == self.spec_segments(),
    {
        match self {
            DomainName::Full(full) => full.clone(),
            DomainName::Partial(partial) => partial.to_fully_qualified(),
        }
    }

    /// The contained labels as a partially qualified name.
    pub fn to_partially_qualified(&self) -> (r: PartiallyQualifiedDomainName)
        ensures
            r@ == self.spec_segments(),
    {
        match self {
            DomainName::Full(full) => full.to_partially_qualified(),
            DomainName::Partial(partial) => partial.clone(),
        }
    }

    /// The labels that make up the domain name, most significant first.
    pub fn iter(&self) -> (r: &Vec<DomainSegment>)
        ensures
            r.deep_view() == self.spec_segments(),
    {
        match self {
            DomainName::Full(full) => full.iter(),
            DomainName::Partial(partial) => partial.iter(),
        }
    }

    /// The domain's text, as rendered by the held variant.
    pub fn to_text(&self) -> (r: String)
        ensures
            self.spec_is_full() ==> r@ == spec_fqdn_text(self.spec_segments()),
            !self.spec_is_full() ==> r@ == spec_pqdn_text(self.spec_segments()),
    {
        match self {
            DomainName::Full(full) => full.to_text(),
            DomainName::Partial(partial) => partial.to_text(),
        }
    }

    /// The length of the domain's text; a fully qualified name counts its
    /// trailing separator.
    pub fn len(&self) -> (r: usize)
        ensures
            self.spec_is_full() ==> r == spec_fqdn_text(self.spec_segments()).len(),
            !self.spec_is_full() ==> r == spec_pqdn_text(self.spec_segments()).len(),
    {
        match self {
            DomainName::Full(full) => full.len(),
            DomainName::Partial(partial) => partial.len(),
        }
    }
}

impl Default for DomainName {
    /// The empty partially qualified name.
    fn default() -> (r: Self)
        ensures
            !r.spec_is_full(),
            r.spec_segments() == Seq::<Seq<char>>::empty(),
    {
        let segs: Vec<DomainSegment> = Vec::new();
        proof {
            assert(segs.deep_view() =~= Seq::<Seq<char>>::empty());
        }
        DomainName::Partial(PartiallyQualifiedDomainName { segments: segs })
    }
}

} // verus!
