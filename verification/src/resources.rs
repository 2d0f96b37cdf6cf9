//! The declared resources the resolver works on: zones and records as the
//! store presents them, the zone reference that names a parent, and the
//! delegation rule a parent grants.

use vstd::prelude::*;

use crate::dn::{DomainName, FullyQualifiedDomainName};
use crate::pattern::{spec_pattern_matches, Pattern};
use crate::text::{push_char, str_eq};

verus! {

/// Index of the first `.` of `s` at or after `i`.
pub open spec fn spec_first_dot(s: Seq<char>, i: int) -> Option<int>
    decreases s.len() - i,
{
    if i < 0 || i >= s.len() {
        Option::None
    } else if s[i] == '.' {
        Option::Some(i)
    } else {
        spec_first_dot(s, i + 1)
    }
}

/// Name and optional namespace identifying a `Zone`; the namespace
/// defaults to the referencing object's own namespace when absent.
#[derive(Debug, PartialEq, Eq)]
pub struct ZoneRef {
    pub name: String,
    pub namespace: Option<String>,
}

impl Clone for ZoneRef {
    fn clone(&self) -> (r: Self)
        ensures
            r.name@ == self.name@,
            r.namespace.deep_view() == self.namespace.deep_view(),
    {
        ZoneRef {
            name: self.name.clone(),
            namespace: match &self.namespace {
                Option::Some(ns) => Option::Some(ns.clone()),
                Option::None => Option::None,
            },
        }
    }
}

impl ZoneRef {
    /// The canonical `name.namespace` label of a reference whose
    /// namespace is known.
    pub open spec fn spec_label(&self) -> Seq<char> {
        self.name@ + seq!['.'] + self.namespace->Some_0@
    }

    /// Renders the canonical `name.namespace` label.
    pub fn as_label(&self) -> (r: String)
        requires
            self.namespace is Some,
        ensures
            r@ == self.spec_label(),
    {
        let mut out = self.name.clone();
        push_char(&mut out, '.');
        match &self.namespace {
            Option::Some(ns) => {
                out.append(ns.as_str());
            },
            Option::None => {},
        }
        proof {
            assert(out@ =~= self.spec_label());
        }
        out
    }

    /// Reads a `name.namespace` label back into a reference, splitting at
    /// the first separator; labels without one name no reference.
    pub fn from_label(label: &str) -> (r: Option<ZoneRef>)
        ensures
            (match r {
                Option::Some(zr) => {
                    &&& spec_first_dot(label@, 0) matches Some(k)
                    &&& zr.name@ == label@.take(spec_first_dot(label@, 0)->Some_0)
                    &&& zr.namespace matches Some(ns) && ns@ == label@.skip(
                        spec_first_dot(label@, 0)->Some_0 + 1,
                    )
                },
                Option::None => spec_first_dot(label@, 0) is None,
            }),
    {
        let n: usize = label.unicode_len();
        let mut k: usize = 0;
        while k < n
            invariant
                k <= n,
                n == label@.len(),
                spec_first_dot(label@, 0) == spec_first_dot(label@, k as int),
            decreases n - k,
        {
            if label.get_char(k) == '.' {
                proof {
                    assert(spec_first_dot(label@, k as int) == Option::<int>::Some(k as int));
                }
                let name = label.substring_char(0, k).to_owned();
                let namespace = label.substring_char(k + 1, n).to_owned();
                proof {
                    assert(name@ =~= label@.take(k as int));
                    assert(namespace@ =~= label@.skip(k as int + 1));
                }
                return Option::Some(
                    ZoneRef { name, namespace: Option::Some(namespace) },
                );
            }
            k = k + 1;
        }
        proof {
            assert(spec_first_dot(label@, n as int) is None);
        }
        Option::None
    }
}

/// A namespace scope plus a pattern: one rule under which a parent zone
/// authorizes adoptions.
#[derive(Debug, Clone, PartialEq, Eq)]
pub struct Delegation {
    pub namespaces: Vec<String>,
    pub pattern: Pattern,
}

impl Delegation {
    /// The delegation's scope includes the namespace.
    pub open spec fn spec_covers_namespace(&self, ns: Seq<char>) -> bool {
        exists|i: int|
            0 <= i < self.namespaces@.len() && (#[trigger] self.namespaces@[i])@ == ns
    }

    /// Checks whether the delegation's scope includes the candidate's
    /// namespace.
    pub fn covers_namespace(&self, namespace: &str) -> (r: bool)
        ensures
            r == self.spec_covers_namespace(namespace@),
    {
        let n: usize = self.namespaces.len();
        let mut i: usize = 0;
        while i < n
            invariant
                i <= n,
                n == self.namespaces.len(),
                forall|j: int| 0 <= j < i ==> (#[trigger] self.namespaces@[j])@ != namespace@,
            decreases n - i,
        {
            if str_eq(self.namespaces[i].as_str(), namespace) {
                return true;
            }
            i = i + 1;
        }
        false
    }

    /// Anchors the delegation's pattern at the parent's name and tests
    /// the candidate against it.
    pub fn validate_zone(
        &self,
        parent_fqdn: &FullyQualifiedDomainName,
        fqdn: &FullyQualifiedDomainName,
    ) -> (r: bool)
        ensures
            r == spec_pattern_matches(self.pattern@ + parent_fqdn@, fqdn@),
    {
        self.pattern.with_origin(parent_fqdn).matches(fqdn)
    }
}

/// The declared intent of a zone: its name, its optional parent
/// reference, the delegations it grants, and its SOA-style parameters.
#[derive(Debug, Clone, PartialEq, Eq)]
pub struct ZoneSpec {
    pub domain_name: DomainName,
    pub zone_ref: Option<ZoneRef>,
    pub delegations: Vec<Delegation>,
    pub ttl: u32,
    pub refresh: u32,
    pub retry: u32,
    pub expire: u32,
    pub negative_response_cache: u32,
}

/// A single resolved DNS resource-record tuple destined for zone-file
/// output.
#[derive(Debug, PartialEq, Eq)]
pub struct ZoneEntry {
    pub fqdn: FullyQualifiedDomainName,
    pub type_: String,
    pub class: String,
    pub ttl: u32,
    pub rdata: String,
}

/// The ghost value of a [`ZoneEntry`].
pub struct ZoneEntryV {
    pub fqdn: Seq<Seq<char>>,
    pub type_: Seq<char>,
    pub class: Seq<char>,
    pub ttl: u32,
    pub rdata: Seq<char>,
}

impl View for ZoneEntry {
    type V = ZoneEntryV;

    open spec fn view(&self) -> ZoneEntryV {
        ZoneEntryV {
            fqdn: self.fqdn@,
            type_: self.type_@,
            class: self.class@,
            ttl: self.ttl,
            rdata: self.rdata@,
        }
    }
}

impl DeepView for ZoneEntry {
    type V = ZoneEntryV;

    open spec fn deep_view(&self) -> ZoneEntryV {
        self.view()
    }
}

impl Clone for ZoneEntry {
    fn clone(&self) -> (r: Self)
        ensures
            r@ == self@,
    {
        ZoneEntry {
            fqdn: self.fqdn.clone(),
            type_: self.type_.clone(),
            class: self.class.clone(),
            ttl: self.ttl,
            rdata: self.rdata.clone(),
        }
    }
}

/// The derived state of a zone: its resolved name, the hash and serial of
/// the last materialized content, and the ordered zone-file entries.
#[derive(Debug, Clone, PartialEq, Eq)]
pub struct ZoneStatus {
    pub fqdn: Option<FullyQualifiedDomainName>,
    pub hash: Option<String>,
    pub serial: Option<u32>,
    pub entries: Vec<ZoneEntry>,
}

/// A namespaced zone object as observed in the store: identity, the
/// parent back-reference label if one is set, intent, and derived state.
#[derive(Debug, Clone, PartialEq, Eq)]
pub struct Zone {
    pub name: String,
    pub namespace: String,
    pub parent_zone_label: Option<String>,
    pub spec: ZoneSpec,
    pub status: Option<ZoneStatus>,
}

/// The declared intent of a record: its name, type, class, optional ttl
/// and data.
#[derive(Debug, Clone, PartialEq, Eq)]
pub struct RecordSpec {
    pub domain_name: DomainName,
    pub type_: String,
    pub class: String,
    pub ttl: Option<u32>,
    pub rdata: String,
}

/// The derived state of a record: its resolved name.
#[derive(Debug, Clone, PartialEq, Eq)]
pub struct RecordStatus {
    pub fqdn: Option<FullyQualifiedDomainName>,
}

/// A namespaced record object as observed in the store.
#[derive(Debug, Clone, PartialEq, Eq)]
pub struct Record {
    pub name: String,
    pub namespace: String,
    pub parent_zone_label: Option<String>,
    pub spec: RecordSpec,
    pub status: Option<RecordStatus>,
}

impl Record {
    /// The record's resolved name, if the resolver has written one.
    pub open spec fn spec_fqdn(&self) -> Option<Seq<Seq<char>>> {
        match self.status {
            Option::Some(st) => match st.fqdn {
                Option::Some(f) => Option::Some(f@),
                Option::None => Option::None,
            },
            Option::None => Option::None,
        }
    }

    /// The record's resolved name, if the resolver has written one.
    pub fn fqdn(&self) -> (r: Option<&FullyQualifiedDomainName>)
        ensures
            (match r {
                Option::Some(f) => self.spec_fqdn() == Option::Some(f@),
                Option::None => self.spec_fqdn() is None,
            }),
    {
        match &self.status {
            Option::Some(st) => match &st.fqdn {
                Option::Some(f) => Option::Some(f),
                Option::None => Option::None,
            },
            Option::None => Option::None,
        }
    }
}

impl Zone {
    /// The zone's resolved name, if one has been written to its status.
    pub open spec fn spec_fqdn(&self) -> Option<Seq<Seq<char>>> {
        match self.status {
            Option::Some(st) => match st.fqdn {
                Option::Some(f) => Option::Some(f@),
                Option::None => Option::None,
            },
            Option::None => Option::None,
        }
    }

    /// The zone's resolved name, if one has been written to its status.
    pub fn fqdn(&self) -> (r: Option<&FullyQualifiedDomainName>)
        ensures
            (match r {
                Option::Some(f) => self.spec_fqdn() == Option::Some(f@),
                Option::None => self.spec_fqdn() is None,
            }),
    {
        match &self.status {
            Option::Some(st) => match &st.fqdn {
                Option::Some(f) => Option::Some(f),
                Option::None => Option::None,
            },
            Option::None => Option::None,
        }
    }

    /// The canonical `name.namespace` label other objects use to refer to
    /// this zone.
    pub open spec fn spec_label(&self) -> Seq<char> {
        self.name@ + seq!['.'] + self.namespace@
    }

    /// Reference to this zone, namespace filled in.
    pub fn zone_ref(&self) -> (r: ZoneRef)
        ensures
            r.name@ == self.name@,
            r.namespace matches Some(ns) && ns@ == self.namespace@,
            r.spec_label() == self.spec_label(),
    {
        ZoneRef {
            name: self.name.clone(),
            namespace: Option::Some(self.namespace.clone()),
        }
    }

    /// Some delegation of this zone covers the namespace and, anchored at
    /// `parent_fqdn`, matches `fqdn`.
    pub open spec fn spec_delegations_allow(
        &self,
        ns: Seq<char>,
        parent_fqdn: Seq<Seq<char>>,
        fqdn: Seq<Seq<char>>,
    ) -> bool {
        exists|i: int|
            0 <= i < self.spec.delegations@.len() && (#[trigger] self.spec.delegations@[
                i
            ]).spec_covers_namespace(ns) && spec_pattern_matches(
                self.spec.delegations@[i].pattern@ + parent_fqdn,
                fqdn,
            )
    }

    /// True when at least one delegation of this zone covers the
    /// namespace and matches the candidate name once anchored at
    /// `parent_fqdn`. Any single matching rule is sufficient.
    pub fn delegations_allow(
        &self,
        namespace: &str,
        parent_fqdn: &FullyQualifiedDomainName,
        fqdn: &FullyQualifiedDomainName,
    ) -> (r: bool)
        ensures
            r == self.spec_delegations_allow(namespace@, parent_fqdn@, fqdn@),
    {
        let n: usize = self.spec.delegations.len();
        let mut i: usize = 0;
        while i < n
            invariant
                i <= n,
                n == self.spec.delegations.len(),
                forall|j: int|
                    0 <= j < i ==> !((#[trigger] self.spec.delegations@[
                        j
                    ]).spec_covers_namespace(namespace@) && spec_pattern_matches(
                        self.spec.delegations@[j].pattern@ + parent_fqdn@,
                        fqdn@,
                    )),
            decreases n - i,
        {
            let d = &self.spec.delegations[i];
            if d.covers_namespace(namespace) && d.validate_zone(parent_fqdn, fqdn) {
                return true;
            }
            i = i + 1;
        }
        false
    }

    /// A candidate zone may adopt this zone as parent: both names are
    /// resolved and some delegation covers the candidate's namespace and
    /// matches its resolved name.
    pub open spec fn spec_validate_zone(&self, zone: &Zone) -> bool {
        &&& self.spec_fqdn() is Some
        &&& zone.spec_fqdn() is Some
        &&& self.spec_delegations_allow(
            zone.namespace@,
            self.spec_fqdn()->Some_0,
            zone.spec_fqdn()->Some_0,
        )
    }

    /// Checks whether this zone's delegations authorize the adoption of
    /// the candidate zone, judged on both objects' resolved names.
    pub fn validate_zone(&self, zone: &Zone) -> (r: bool)
        ensures
            r == self.spec_validate_zone(zone),
    {
        let parent_fqdn = match self.fqdn() {
            Option::Some(f) => f,
            Option::None => {
                return false;
            },
        };
        let zone_fqdn = match zone.fqdn() {
            Option::Some(f) => f,
            Option::None => {
                return false;
            },
        };
        self.delegations_allow(zone.namespace.as_str(), parent_fqdn, zone_fqdn)
    }

    /// A record may claim this zone as parent: both names are resolved
    /// and some delegation covers the record's namespace and matches its
    /// resolved name.
    pub open spec fn spec_validate_record(&self, record: &Record) -> bool {
        &&& self.spec_fqdn() is Some
        &&& record.spec_fqdn() is Some
        &&& self.spec_delegations_allow(
            record.namespace@,
            self.spec_fqdn()->Some_0,
            record.spec_fqdn()->Some_0,
        )
    }

    /// Checks whether this zone's delegations authorize the record that
    /// claims it as parent, judged on both objects' resolved names.
    pub fn validate_record(&self, record: &Record) -> (r: bool)
        ensures
            r == self.spec_validate_record(record),
    {
        let parent_fqdn = match self.fqdn() {
            Option::Some(f) => f,
            Option::None => {
                return false;
            },
        };
        let record_fqdn = match record.fqdn() {
            Option::Some(f) => f,
            Option::None => {
                return false;
            },
        };
        self.delegations_allow(record.namespace.as_str(), parent_fqdn, record_fqdn)
    }
}

} // verus!
