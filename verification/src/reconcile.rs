//! The zone resolver: one reconciliation pass as a pure decision over the
//! currently observed snapshot — parent discovery by explicit reference or
//! best-match search, computation of the alleged name, delegation
//! validation, and the writes and requeue delay that follow.

use vstd::prelude::*;

use crate::dn::{spec_is_subdomain_of, DomainName, FullyQualifiedDomainName};
use crate::resources::{Zone, ZoneRef};
use crate::text::str_eq;
use crate::Effect;

verus! {

/// Requeue delay while a referenced parent zone does not exist yet.
pub const PARENT_MISSING_REQUEUE_SECONDS: u64 = 30;

/// Requeue delay while a referenced parent zone has no resolved name yet.
pub const PARENT_UNRESOLVED_REQUEUE_SECONDS: u64 = 5;

/// Requeue delay the harness applies after a store error.
pub const ERROR_REQUEUE_SECONDS: u64 = 60;

/// The writes and requeue delay one reconciliation pass decides on.
#[derive(Debug, PartialEq, Eq)]
pub struct ReconcileOutcome {
    /// Resolved name to write to the zone's status, if any.
    pub set_fqdn: Option<FullyQualifiedDomainName>,
    /// Parent back-reference to write, if any.
    pub set_parent: Option<ZoneRef>,
    /// Whether the pass goes on to recompute and persist the zone's
    /// status.
    pub update_status: bool,
    /// When the zone is to be reconciled again.
    pub requeue_seconds: u64,
}

/// The ghost value of a [`ReconcileOutcome`]; a parent reference is its
/// name and namespace.
#[verifier::ext_equal]
pub struct ReconcileOutcomeV {
    pub set_fqdn: Option<Seq<Seq<char>>>,
    pub set_parent: Option<(Seq<char>, Seq<char>)>,
    pub update_status: bool,
    pub requeue_seconds: u64,
}

impl View for ReconcileOutcome {
    type V = ReconcileOutcomeV;

    open spec fn view(&self) -> ReconcileOutcomeV {
        ReconcileOutcomeV {
            set_fqdn: self.set_fqdn.deep_view(),
            set_parent: match self.set_parent {
                Option::Some(zr) => Option::Some(
                    (
                        zr.name@,
                        match zr.namespace {
                            Option::Some(ns) => ns@,
                            Option::None => Seq::empty(),
                        },
                    ),
                ),
                Option::None => Option::None,
            },
            update_status: self.update_status,
            requeue_seconds: self.requeue_seconds,
        }
    }
}

/// Index of the first zone named `name` in namespace `ns`, at or after
/// `i`.
pub open spec fn spec_find_zone(zones: Seq<Zone>, name: Seq<char>, ns: Seq<char>, i: int) -> Option<
    int,
>
    decreases zones.len() - i,
{
    if i < 0 || i >= zones.len() {
        Option::None
    } else if zones[i].name@ == name && zones[i].namespace@ == ns {
        Option::Some(i)
    } else {
        spec_find_zone(zones, name, ns, i + 1)
    }
}

/// A zone that could be the parent of a child with resolved name `child`:
/// its own name is resolved and is a proper suffix of the child's.
pub open spec fn spec_parent_candidate(z: Zone, child: Seq<Seq<char>>) -> bool {
    z.spec_fqdn() matches Some(pf) && spec_is_subdomain_of(child, pf)
}

/// The most specific candidate parent among the first `i` zones: the one
/// with the most labels, the later of two equals winning.
pub open spec fn spec_best_parent_upto(zones: Seq<Zone>, child: Seq<Seq<char>>, i: int) -> Option<
    int,
>
    decreases i,
{
    if i <= 0 || i > zones.len() {
        Option::None
    } else {
        let prev = spec_best_parent_upto(zones, child, i - 1);
        let k = i - 1;
        if !spec_parent_candidate(zones[k], child) {
            prev
        } else {
            match prev {
                Option::None => Option::Some(k),
                Option::Some(j) => {
                    if zones[k].spec_fqdn()->Some_0.len() >= zones[j].spec_fqdn()->Some_0.len() {
                        Option::Some(k)
                    } else {
                        Option::Some(j)
                    }
                },
            }
        }
    }
}

/// What one reconciliation pass decides for `zone` given the observed
/// snapshot `zones`:
/// - explicit reference and partial name: adopt under the referenced
///   parent when a delegation covers the zone's namespace and matches the
///   alleged name, writing that name and the back-reference; requeue and
///   leave the zone alone while the parent is missing, unresolved, or
///   does not authorize the adoption;
/// - no reference and full name: write the declared name, then
///   back-reference the most specific authorizing parent if any;
/// - both or neither: a configuration contradiction, requeue only.
pub open spec fn spec_reconcile_zone(zone: Zone, zones: Seq<Zone>, steady: u64) -> ReconcileOutcomeV {
    let full = zone.spec.domain_name.spec_is_full();
    if zone.spec.zone_ref is Some && !full {
        let zr = zone.spec.zone_ref->Some_0;
        let pns = match zr.namespace {
            Option::Some(ns) => ns@,
            Option::None => zone.namespace@,
        };
        match spec_find_zone(zones, zr.name@, pns, 0) {
            Option::None => ReconcileOutcomeV {
                set_fqdn: Option::None,
                set_parent: Option::None,
                update_status: false,
                requeue_seconds: PARENT_MISSING_REQUEUE_SECONDS,
            },
            Option::Some(pi) => {
                let parent = zones[pi];
                match parent.spec_fqdn() {
                    Option::None => ReconcileOutcomeV {
                        set_fqdn: Option::None,
                        set_parent: Option::None,
                        update_status: false,
                        requeue_seconds: PARENT_UNRESOLVED_REQUEUE_SECONDS,
                    },
                    Option::Some(pf) => {
                        let alleged = zone.spec.domain_name.spec_segments() + pf;
                        if parent.spec_delegations_allow(zone.namespace@, pf, alleged) {
                            ReconcileOutcomeV {
                                set_fqdn: Option::Some(alleged),
                                set_parent: Option::Some((parent.name@, parent.namespace@)),
                                update_status: true,
                                requeue_seconds: steady,
                            }
                        } else {
                            ReconcileOutcomeV {
                                set_fqdn: Option::None,
                                set_parent: Option::None,
                                update_status: false,
                                requeue_seconds: steady,
                            }
                        }
                    },
                }
            },
        }
    } else if zone.spec.zone_ref is None && full {
        let segs = zone.spec.domain_name.spec_segments();
        let best = spec_best_parent_upto(zones, segs, zones.len() as int);
        let set_parent = match best {
            Option::Some(j) => {
                if zones[j].spec_validate_zone(&zone) {
                    Option::Some((zones[j].name@, zones[j].namespace@))
                } else {
                    Option::None
                }
            },
            Option::None => Option::None,
        };
        ReconcileOutcomeV {
            set_fqdn: Option::Some(segs),
            set_parent,
            update_status: true,
            requeue_seconds: steady,
        }
    } else {
        ReconcileOutcomeV {
            set_fqdn: Option::None,
            set_parent: Option::None,
            update_status: false,
            requeue_seconds: steady,
        }
    }
}

/// First zone of the snapshot with the given name and namespace.
fn find_zone(zones: &Vec<Zone>, name: &String, namespace: &String) -> (r: Option<usize>)
    ensures
        (match r {
            Option::Some(i) => spec_find_zone(zones@, name@, namespace@, 0) == Option::<
                int,
            >::Some(i as int) && i < zones@.len(),
            Option::None => spec_find_zone(zones@, name@, namespace@, 0) is None,
        }),
{
    let n: usize = zones.len();
    let mut i: usize = 0;
    while i < n
        invariant
            i <= n,
            n == zones@.len(),
            spec_find_zone(zones@, name@, namespace@, 0) == spec_find_zone(
                zones@,
                name@,
                namespace@,
                i as int,
            ),
        decreases n - i,
    {
        if str_eq(zones[i].name.as_str(), name.as_str()) && str_eq(
            zones[i].namespace.as_str(),
            namespace.as_str(),
        ) {
            proof {
                assert(spec_find_zone(zones@, name@, namespace@, i as int) == Option::<
                    int,
                >::Some(i as int));
            }
            return Option::Some(i);
        }
        i = i + 1;
    }
    proof {
        assert(spec_find_zone(zones@, name@, namespace@, n as int) is None);
    }
    Option::None
}

/// The most specific candidate parent in the snapshot for a child with
/// resolved name `child`, ties resolved towards the later entry.
fn best_parent(zones: &Vec<Zone>, child: &FullyQualifiedDomainName) -> (r: Option<usize>)
    ensures
        (match r {
            Option::Some(j) => spec_best_parent_upto(zones@, child@, zones@.len() as int)
                == Option::<int>::Some(j as int) && j < zones@.len(),
            Option::None => spec_best_parent_upto(zones@, child@, zones@.len() as int) is None,
        }),
{
    let n: usize = zones.len();
    let mut best: Option<usize> = Option::None;
    let mut i: usize = 0;
    while i < n
        invariant
            i <= n,
            n == zones@.len(),
            (match best {
                Option::Some(j) => spec_best_parent_upto(zones@, child@, i as int) == Option::<
                    int,
                >::Some(j as int) && j < i && spec_parent_candidate(zones@[j as int], child@),
                Option::None => spec_best_parent_upto(zones@, child@, i as int) is None,
            }),
        decreases n - i,
    {
        let ghost prev = spec_best_parent_upto(zones@, child@, i as int);
        let z = &zones[i];
        let is_candidate = match z.fqdn() {
            Option::Some(pf) => child.is_subdomain_of(pf),
            Option::None => false,
        };
        proof {
            assert(is_candidate == spec_parent_candidate(zones@[i as int], child@));
        }
        if is_candidate {
            match best {
                Option::None => {
                    best = Option::Some(i);
                },
                Option::Some(j) => {
                    let len_i: usize = match zones[i].fqdn() {
                        Option::Some(f) => f.iter().len(),
                        Option::None => vstd::pervasive::unreached(),
                    };
                    let len_j: usize = match zones[j].fqdn() {
                        Option::Some(f) => f.iter().len(),
                        Option::None => vstd::pervasive::unreached(),
                    };
                    if len_i >= len_j {
                        best = Option::Some(i);
                    }
                },
            }
        }
        proof {
            assert(spec_best_parent_upto(zones@, child@, i as int + 1) == (
            if !spec_parent_candidate(zones@[i as int], child@) {
                prev
            } else {
                match prev {
                    Option::None => Option::Some(i as int),
                    Option::Some(j) => {
                        if zones@[i as int].spec_fqdn()->Some_0.len() >= zones@[
                            j
                        ].spec_fqdn()->Some_0.len() {
                            Option::Some(i as int)
                        } else {
                            Option::Some(j)
                        }
                    },
                }
            }));
        }
        i = i + 1;
    }
    best
}

/// One reconciliation pass over the observed snapshot; `steady` is the
/// configured steady-state requeue delay.
pub fn reconcile_zone(zone: &Zone, zones: &Vec<Zone>, steady: u64) -> (r: ReconcileOutcome)
    ensures
        r@ == spec_reconcile_zone(*zone, zones@, steady),
{
    match (&zone.spec.zone_ref, &zone.spec.domain_name) {
        (Option::Some(zone_ref), DomainName::Partial(partial)) => {
            // Follow the zone reference to the supposed parent zone, or
            // requeue later if it does not exist yet.
            let pns: &String = match &zone_ref.namespace {
                Option::Some(ns) => ns,
                Option::None => &zone.namespace,
            };
            let found = find_zone(zones, &zone_ref.name, pns);
            let pi: usize = match found {
                Option::None => {
                    let r = ReconcileOutcome {
                        set_fqdn: Option::None,
                        set_parent: Option::None,
                        update_status: false,
                        requeue_seconds: PARENT_MISSING_REQUEUE_SECONDS,
                    };
                    proof {
                        assert(r@ =~~= spec_reconcile_zone(*zone, zones@, steady));
                    }
                    return r;
                },
                Option::Some(pi) => pi,
            };
            let parent = &zones[pi];
            // Without the parent's resolved name the delegations cannot
            // be checked yet; postpone until it has one.
            let parent_fqdn = match parent.fqdn() {
                Option::None => {
                    let r = ReconcileOutcome {
                        set_fqdn: Option::None,
                        set_parent: Option::None,
                        update_status: false,
                        requeue_seconds: PARENT_UNRESOLVED_REQUEUE_SECONDS,
                    };
                    proof {
                        assert(r@ =~~= spec_reconcile_zone(*zone, zones@, steady));
                    }
                    return r;
                },
                Option::Some(f) => f,
            };
            // Only "alleged" until a delegation of the parent admits it.
            let alleged_fqdn = partial.with_origin(parent_fqdn);
            if parent.delegations_allow(zone.namespace.as_str(), parent_fqdn, &alleged_fqdn) {
                let r = ReconcileOutcome {
                    set_fqdn: Option::Some(alleged_fqdn),
                    set_parent: Option::Some(parent.zone_ref()),
                    update_status: true,
                    requeue_seconds: steady,
                };
                proof {
                    assert(r@ =~~= spec_reconcile_zone(*zone, zones@, steady));
                }
                r
            } else {
                let r = ReconcileOutcome {
                    set_fqdn: Option::None,
                    set_parent: Option::None,
                    update_status: false,
                    requeue_seconds: steady,
                };
                proof {
                    assert(r@ =~~= spec_reconcile_zone(*zone, zones@, steady));
                }
                r
            }
        },
        (Option::None, DomainName::Full(fqdn)) => {
            // The name is already fully qualified: write it, then search
            // the whole snapshot for the most specific parent whose
            // delegations admit this zone.
            let best = best_parent(zones, fqdn);
            let set_parent: Option<ZoneRef> = match best {
                Option::Some(j) => {
                    if zones[j].validate_zone(zone) {
                        Option::Some(zones[j].zone_ref())
                    } else {
                        Option::None
                    }
                },
                Option::None => Option::None,
            };
            let r = ReconcileOutcome {
                set_fqdn: Option::Some(fqdn.clone()),
                set_parent,
                update_status: true,
                requeue_seconds: steady,
            };
            proof {
                assert(r@ =~~= spec_reconcile_zone(*zone, zones@, steady));
            }
            r
        },
        _ => {
            // Both a zone reference and a fully qualified name, or
            // neither: ambiguous or under-specified parentage; requeue
            // without mutating the object.
            let r = ReconcileOutcome {
                set_fqdn: Option::None,
                set_parent: Option::None,
                update_status: false,
                requeue_seconds: steady,
            };
            proof {
                assert(r@ =~~= spec_reconcile_zone(*zone, zones@, steady));
            }
            r
        },
    }
}

/// How the parent back-reference label is to be patched.
#[derive(Debug, PartialEq, Eq)]
pub enum ParentWrite {
    /// The label already has the desired value (or desired absence).
    Keep,
    /// The label is to be removed.
    Clear,
    /// The label is to be set to this value.
    Assign(String),
}

/// Decides the patch that brings an object's parent back-reference label
/// to the desired reference: nothing when it is already right, a removal
/// when no parent is desired, a write of the canonical label otherwise.
pub fn set_parent_decision(current: Option<&String>, desired: Option<&ZoneRef>) -> (r:
    ParentWrite)
    requires
        desired matches Some(zr) ==> zr.namespace is Some,
    ensures
        r is Keep <==> ((current is None && desired is None) || (current matches Some(cur)
            && desired matches Some(d) && cur@ == d.spec_label())),
        desired is None && current is Some ==> r is Clear,
        desired matches Some(d) ==> (!(current matches Some(cur) && cur@ == d.spec_label())
            ==> (r matches ParentWrite::Assign(l) && l@ == d.spec_label())),
{
    match (current, desired) {
        (Option::None, Option::None) => ParentWrite::Keep,
        (Option::Some(cur), Option::Some(d)) => {
            let label = d.as_label();
            if str_eq(cur.as_str(), label.as_str()) {
                ParentWrite::Keep
            } else {
                ParentWrite::Assign(label)
            }
        },
        (Option::Some(_), Option::None) => ParentWrite::Clear,
        (Option::None, Option::Some(d)) => ParentWrite::Assign(d.as_label()),
    }
}

/// Whether applying a parent-write touches the object.
pub fn parent_write_effect(w: &ParentWrite) -> (r: Effect)
    ensures
        (r == Effect::Changed) == !(w is Keep),
{
    match w {
        ParentWrite::Keep => Effect::Unchanged,
        ParentWrite::Clear => Effect::Changed,
        ParentWrite::Assign(_) => Effect::Changed,
    }
}

/// Decides whether a resolved-name write is needed: nothing when the
/// status already carries exactly the desired name.
pub fn set_fqdn_decision(
    current: Option<&FullyQualifiedDomainName>,
    desired: &FullyQualifiedDomainName,
) -> (r: Effect)
    ensures
        (r == Effect::Unchanged) == (current matches Some(f) && f@ == desired@),
{
    match current {
        Option::Some(f) => {
            if f.equals(desired) {
                Effect::Unchanged
            } else {
                Effect::Changed
            }
        },
        Option::None => Effect::Changed,
    }
}

/// The chosen parent is a real candidate, and no candidate in the
/// snapshot has more labels: the longest matching suffix wins.
pub proof fn lemma_best_parent_maximal(zones: Seq<Zone>, child: Seq<Seq<char>>, i: int)
    requires
        i <= zones.len(),
    ensures
        spec_best_parent_upto(zones, child, i) matches Some(j) ==> 0 <= j < i
            && spec_parent_candidate(zones[j], child),
        spec_best_parent_upto(zones, child, i) matches Some(j) ==> forall|t: int|
            0 <= t < i && spec_parent_candidate(#[trigger] zones[t], child) ==> zones[
                t
            ].spec_fqdn()->Some_0.len() <= zones[j].spec_fqdn()->Some_0.len(),
        spec_best_parent_upto(zones, child, i) is None ==> forall|t: int|
            0 <= t < i ==> !spec_parent_candidate(#[trigger] zones[t], child),
    decreases i,
{
    if i > 0 {
        lemma_best_parent_maximal(zones, child, i - 1);
    }
}

/// Adoption under an explicit reference follows the delegations alone:
/// when the referenced parent exists and is resolved, the pass writes the
/// alleged name — the partial name anchored at the parent — and the
/// back-reference exactly when some delegation covers the zone's
/// namespace and matches that name; otherwise it writes nothing.
pub proof fn lemma_adoption_follows_delegations(zone: Zone, zones: Seq<Zone>, steady: u64, pi: int)
    requires
        zone.spec.zone_ref is Some,
        !zone.spec.domain_name.spec_is_full(),
        spec_find_zone(
            zones,
            zone.spec.zone_ref->Some_0.name@,
            match zone.spec.zone_ref->Some_0.namespace {
                Option::Some(ns) => ns@,
                Option::None => zone.namespace@,
            },
            0,
        ) == Option::<int>::Some(pi),
        zones[pi].spec_fqdn() is Some,
    ensures
        ({
            let pf = zones[pi].spec_fqdn()->Some_0;
            let alleged = zone.spec.domain_name.spec_segments() + pf;
            let allowed = zones[pi].spec_delegations_allow(zone.namespace@, pf, alleged);
            let outcome = spec_reconcile_zone(zone, zones, steady);
            &&& allowed ==> outcome.set_fqdn == Option::Some(alleged)
                && outcome.set_parent == Option::Some((zones[pi].name@, zones[pi].namespace@))
            &&& !allowed ==> outcome.set_fqdn is None && outcome.set_parent is None
        }),
{
}

} // verus!
