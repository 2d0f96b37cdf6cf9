use kubizone::dn::DomainName;
use kubizone::pattern::Pattern;
use kubizone::reconcile::{
    reconcile_zone, set_fqdn_decision, set_parent_decision, ParentWrite,
    PARENT_MISSING_REQUEUE_SECONDS, PARENT_UNRESOLVED_REQUEUE_SECONDS,
};
use kubizone::resources::{Delegation, Zone, ZoneRef, ZoneSpec, ZoneStatus};
use kubizone::{Effect, FullyQualifiedDomainName};

fn zone_spec(domain: &str, zone_ref: Option<ZoneRef>, delegations: Vec<Delegation>) -> ZoneSpec {
    ZoneSpec {
        domain_name: DomainName::try_from(domain).unwrap(),
        zone_ref,
        delegations,
        ttl: 300,
        refresh: 500,
        retry: 30,
        expire: 3600,
        negative_response_cache: 60,
    }
}

fn zone(name: &str, namespace: &str, spec: ZoneSpec, fqdn: Option<&str>) -> Zone {
    Zone {
        name: name.to_string(),
        namespace: namespace.to_string(),
        parent_zone_label: None,
        spec,
        status: fqdn.map(|f| ZoneStatus {
            fqdn: Some(FullyQualifiedDomainName::try_from(f).unwrap()),
            hash: None,
            serial: None,
            entries: Vec::new(),
        }),
    }
}

fn delegation(namespaces: &[&str], pattern: &str) -> Delegation {
    Delegation {
        namespaces: namespaces.iter().map(|n| n.to_string()).collect(),
        pattern: Pattern::try_from(pattern).unwrap(),
    }
}

#[test]
fn adoption_follows_namespace_scope() {
    // A parent zone `org.` delegates `*.example` to namespace ns1 only.
    let parent = zone(
        "org",
        "ns1",
        zone_spec("org.", None, vec![delegation(&["ns1"], "*.example")]),
        Some("org."),
    );
    let child_ref = Some(ZoneRef {
        name: "org".to_string(),
        namespace: Some("ns1".to_string()),
    });

    let child_in_ns1 = zone("child", "ns1", zone_spec("www.example", child_ref.clone(), vec![]), None);
    let zones = vec![parent.clone(), child_in_ns1.clone()];
    let outcome = reconcile_zone(&child_in_ns1, &zones, 300);
    let written = outcome.set_fqdn.expect("child in ns1 is adopted");
    assert_eq!(written.to_text(), "www.example.org.");
    let parent_ref = outcome.set_parent.expect("back-reference written");
    assert_eq!(parent_ref.name, "org");
    assert_eq!(parent_ref.namespace.as_deref(), Some("ns1"));
    assert!(outcome.update_status);

    let child_in_ns2 = zone("child", "ns2", zone_spec("www.example", child_ref, vec![]), None);
    let zones = vec![parent, child_in_ns2.clone()];
    let outcome = reconcile_zone(&child_in_ns2, &zones, 300);
    assert!(outcome.set_fqdn.is_none());
    assert!(outcome.set_parent.is_none());
    assert!(!outcome.update_status);
    assert_eq!(outcome.requeue_seconds, 300);
}

#[test]
fn missing_parent_requeues() {
    let child_ref = Some(ZoneRef {
        name: "org".to_string(),
        namespace: None,
    });
    let child = zone("child", "ns1", zone_spec("www.example", child_ref, vec![]), None);
    let zones = vec![child.clone()];
    let outcome = reconcile_zone(&child, &zones, 300);
    assert!(outcome.set_fqdn.is_none());
    assert_eq!(outcome.requeue_seconds, PARENT_MISSING_REQUEUE_SECONDS);

    // Present but unresolved parent: requeue on the shorter delay.
    let parent = zone("org", "ns1", zone_spec("org.", None, vec![]), None);
    let child_ref = Some(ZoneRef {
        name: "org".to_string(),
        namespace: Some("ns1".to_string()),
    });
    let child = zone("child", "ns1", zone_spec("www.example", child_ref, vec![]), None);
    let zones = vec![parent, child.clone()];
    let outcome = reconcile_zone(&child, &zones, 300);
    assert!(outcome.set_fqdn.is_none());
    assert_eq!(outcome.requeue_seconds, PARENT_UNRESOLVED_REQUEUE_SECONDS);
}

#[test]
fn longest_suffix_parent_wins() {
    // Candidates `org.` and `example.org.`; the most specific parent is
    // chosen for `www.example.org.`.
    let top = zone(
        "org",
        "default",
        zone_spec("org.", None, vec![delegation(&["default"], "*")]),
        Some("org."),
    );
    let mid = zone(
        "example-org",
        "default",
        zone_spec("example.org.", None, vec![delegation(&["default"], "*")]),
        Some("example.org."),
    );
    let child = zone(
        "www",
        "default",
        zone_spec("www.example.org.", None, vec![]),
        Some("www.example.org."),
    );
    let zones = vec![top, mid, child.clone()];
    let outcome = reconcile_zone(&child, &zones, 300);
    let written = outcome.set_fqdn.expect("full name is always written");
    assert_eq!(written.to_text(), "www.example.org.");
    let parent_ref = outcome.set_parent.expect("a parent is selected");
    assert_eq!(parent_ref.name, "example-org");
    assert!(outcome.update_status);
}

#[test]
fn top_level_zone_has_no_parent() {
    let top = zone("org", "default", zone_spec("org.", None, vec![]), Some("org."));
    let zones = vec![top.clone()];
    let outcome = reconcile_zone(&top, &zones, 300);
    assert!(outcome.set_fqdn.is_some());
    assert!(outcome.set_parent.is_none());
    assert!(outcome.update_status);
}

#[test]
fn contradictory_configurations_requeue() {
    // Both a zone reference and a full name.
    let zr = Some(ZoneRef {
        name: "org".to_string(),
        namespace: Some("ns1".to_string()),
    });
    let both = zone("z", "ns1", zone_spec("www.example.org.", zr, vec![]), None);
    let zones = vec![both.clone()];
    let outcome = reconcile_zone(&both, &zones, 123);
    assert!(outcome.set_fqdn.is_none());
    assert!(outcome.set_parent.is_none());
    assert!(!outcome.update_status);
    assert_eq!(outcome.requeue_seconds, 123);

    // Neither.
    let neither = zone("z", "ns1", zone_spec("www.example", None, vec![]), None);
    let zones = vec![neither.clone()];
    let outcome = reconcile_zone(&neither, &zones, 123);
    assert!(outcome.set_fqdn.is_none());
    assert_eq!(outcome.requeue_seconds, 123);
}

#[test]
fn parent_label_writes() {
    let desired = ZoneRef {
        name: "org".to_string(),
        namespace: Some("ns1".to_string()),
    };
    assert_eq!(desired.as_label(), "org.ns1");

    assert_eq!(set_parent_decision(None, None), ParentWrite::Keep);
    let current = "org.ns1".to_string();
    assert_eq!(set_parent_decision(Some(&current), Some(&desired)), ParentWrite::Keep);
    assert_eq!(set_parent_decision(Some(&current), None), ParentWrite::Clear);
    let stale = "old.ns9".to_string();
    assert_eq!(
        set_parent_decision(Some(&stale), Some(&desired)),
        ParentWrite::Assign("org.ns1".to_string())
    );
    assert_eq!(
        set_parent_decision(None, Some(&desired)),
        ParentWrite::Assign("org.ns1".to_string())
    );

    let zr = ZoneRef::from_label("org.ns1").unwrap();
    assert_eq!(zr.name, "org");
    assert_eq!(zr.namespace.as_deref(), Some("ns1"));
    assert!(ZoneRef::from_label("nodot").is_none());
}

#[test]
fn redelivered_reconciliations_converge() {
    // Two reconciliations of the same zone issued back-to-back observe
    // the same snapshot and decide the same writes.
    let parent = zone(
        "org",
        "ns1",
        zone_spec("org.", None, vec![delegation(&["ns1"], "*.example")]),
        Some("org."),
    );
    let child_ref = Some(ZoneRef {
        name: "org".to_string(),
        namespace: Some("ns1".to_string()),
    });
    let child = zone("child", "ns1", zone_spec("www.example", child_ref, vec![]), None);
    let zones = vec![parent, child.clone()];

    let first = reconcile_zone(&child, &zones, 300);
    let second = reconcile_zone(&child, &zones, 300);
    assert_eq!(first, second);

    // Once the writes are applied, a further pass decides the same
    // resolved name and parent again: the state is a fixpoint.
    let mut settled = child.clone();
    settled.status = Some(ZoneStatus {
        fqdn: first.set_fqdn.clone(),
        hash: None,
        serial: None,
        entries: Vec::new(),
    });
    settled.parent_zone_label = Some("org.ns1".to_string());
    let zones = vec![zones[0].clone(), settled.clone()];
    let third = reconcile_zone(&settled, &zones, 300);
    assert_eq!(third.set_fqdn, first.set_fqdn);
    assert_eq!(third.set_parent, first.set_parent);
}

#[test]
fn fqdn_writes_are_idempotent() {
    let desired = FullyQualifiedDomainName::try_from("www.example.org.").unwrap();
    let same = FullyQualifiedDomainName::try_from("www.example.org.").unwrap();
    let other = FullyQualifiedDomainName::try_from("example.org.").unwrap();
    assert_eq!(set_fqdn_decision(Some(&same), &desired), Effect::Unchanged);
    assert_eq!(set_fqdn_decision(Some(&other), &desired), Effect::Changed);
    assert_eq!(set_fqdn_decision(None, &desired), Effect::Changed);
    assert!(Effect::Changed.changed());
    assert!(!Effect::Unchanged.changed());
}
