use kubizone::dn::DomainName;
use kubizone::pattern::Pattern;
use kubizone::resources::{
    Delegation, Record, RecordSpec, RecordStatus, Zone, ZoneSpec, ZoneStatus,
};
use kubizone::status::{compute_zone_status, compute_zone_status_at, UtcDate};
use kubizone::zonefile::{ZoneFile, ZoneFileSpec};
use kubizone::resources::ZoneRef;
use kubizone::FullyQualifiedDomainName;

fn resolved_zone(hash: Option<String>, serial: Option<u32>) -> Zone {
    Zone {
        name: "example-org".to_string(),
        namespace: "default".to_string(),
        parent_zone_label: None,
        spec: ZoneSpec {
            domain_name: DomainName::try_from("example.org.").unwrap(),
            zone_ref: None,
            delegations: vec![Delegation {
                namespaces: vec!["default".to_string()],
                pattern: Pattern::try_from("*").unwrap(),
            }],
            ttl: 300,
            refresh: 500,
            retry: 30,
            expire: 3600,
            negative_response_cache: 60,
        },
        status: Some(ZoneStatus {
            fqdn: Some(FullyQualifiedDomainName::try_from("example.org.").unwrap()),
            hash,
            serial,
            entries: Vec::new(),
        }),
    }
}

fn record(rdata: &str) -> Record {
    Record {
        name: "www".to_string(),
        namespace: "default".to_string(),
        parent_zone_label: Some("example-org.default".to_string()),
        spec: RecordSpec {
            domain_name: DomainName::try_from("www.example").unwrap(),
            type_: "A".to_string(),
            class: "IN".to_string(),
            ttl: None,
            rdata: rdata.to_string(),
        },
        status: Some(RecordStatus {
            fqdn: Some(FullyQualifiedDomainName::try_from("www.example.org.").unwrap()),
        }),
    }
}

const DATE: UtcDate = UtcDate { year: 2026, month: 1, day: 2 };

#[test]
fn soa_entry_and_serial_formula() {
    let zone = resolved_zone(None, None);
    let records = vec![record("192.0.2.1")];
    let up = compute_zone_status_at(&zone, &records, DATE).expect("zone is resolved");

    // No previous hash: the content counts as changed, and the serial is
    // the date-coded candidate (larger than last + 1 = 1).
    assert_eq!(up.serial, 2026010200);
    assert_eq!(up.entries.len(), 2);
    assert_eq!(up.entries[0].type_, "SOA");
    assert_eq!(up.entries[0].class, "IN");
    assert_eq!(up.entries[0].ttl, 300);
    assert_eq!(up.entries[0].fqdn.to_text(), "example.org.");
    assert_eq!(
        up.entries[0].rdata,
        "ns.example.org. noc.example.org. (2026010200 500 30 3600 60)"
    );
    assert_eq!(up.entries[1].type_, "A");
    assert_eq!(up.entries[1].ttl, 300);
    assert_eq!(up.entries[1].rdata, "192.0.2.1");
    assert_eq!(up.entries[1].fqdn.to_text(), "www.example.org.");
}

#[test]
fn unchanged_content_keeps_hash_and_serial() {
    let zone = resolved_zone(None, None);
    let records = vec![record("192.0.2.1")];
    let first = compute_zone_status_at(&zone, &records, DATE).unwrap();

    // Persist the first result, then aggregate again — even at a later
    // date: identical hash, unchanged serial, identical entries.
    let settled = resolved_zone(Some(first.hash.clone()), Some(first.serial));
    let later = UtcDate { year: 2027, month: 6, day: 30 };
    let second = compute_zone_status_at(&settled, &records, later).unwrap();
    assert_eq!(second.hash, first.hash);
    assert_eq!(second.serial, first.serial);
    assert_eq!(second.entries, first.entries);
}

#[test]
fn changed_rdata_changes_hash_and_increases_serial() {
    let zone = resolved_zone(None, None);
    let first = compute_zone_status_at(&zone, &vec![record("192.0.2.1")], DATE).unwrap();
    let settled = resolved_zone(Some(first.hash.clone()), Some(first.serial));
    let second = compute_zone_status_at(&settled, &vec![record("192.0.2.9")], DATE).unwrap();
    assert_ne!(second.hash, first.hash);
    assert!(second.serial > first.serial);
    assert_eq!(second.serial, first.serial + 1);
}

#[test]
fn unauthorized_record_is_skipped() {
    let zone = resolved_zone(None, None);
    // Claims this zone as parent, but in a namespace no delegation covers.
    let mut foreign = record("192.0.2.1");
    foreign.namespace = "intruder".to_string();
    let up = compute_zone_status_at(&zone, &vec![foreign], DATE).unwrap();
    assert_eq!(up.entries.len(), 1);
    assert_eq!(up.entries[0].type_, "SOA");

    // A record pointing at a different parent label is not collected.
    let mut stray = record("192.0.2.1");
    stray.parent_zone_label = Some("other.default".to_string());
    let up = compute_zone_status_at(&zone, &vec![stray], DATE).unwrap();
    assert_eq!(up.entries.len(), 1);
}

#[test]
fn unresolved_zone_has_no_status() {
    let mut zone = resolved_zone(None, None);
    zone.status = None;
    assert!(compute_zone_status_at(&zone, &Vec::new(), DATE).is_none());
}

#[test]
fn aggregation_at_current_date_runs() {
    let zone = resolved_zone(None, None);
    let up = compute_zone_status(&zone, &vec![record("192.0.2.1")]).expect("zone is resolved");
    // The serial is date-coded from the real clock, so it is at least the
    // candidate of the day this test could first run.
    assert!(up.serial >= 2025010100);
    assert_eq!(up.entries.len(), 2);
}

#[test]
fn record_ttl_defaults_to_zone_ttl() {
    let zone = resolved_zone(None, None);
    let mut with_ttl = record("192.0.2.1");
    with_ttl.spec.ttl = Some(7);
    let up = compute_zone_status_at(&zone, &vec![with_ttl], DATE).unwrap();
    assert_eq!(up.entries[1].ttl, 7);
}

#[test]
fn zone_file_refs_default_namespace() {
    let zf = ZoneFile {
        name: "zf".to_string(),
        namespace: "default".to_string(),
        spec: ZoneFileSpec {
            zone_refs: vec![
                ZoneRef { name: "a".to_string(), namespace: Some("other".to_string()) },
                ZoneRef { name: "b".to_string(), namespace: None },
            ],
            config_map_name: None,
        },
        status: None,
    };
    let refs = zf.zone_ref();
    assert_eq!(refs.len(), 2);
    assert_eq!(refs[0].namespace.as_deref(), Some("other"));
    assert_eq!(refs[1].namespace.as_deref(), Some("default"));
    assert_eq!(refs[1].name, "b");
}
