//! The status aggregator: collects the validated child records of a zone
//! into ordered zone-file entries, synthesizes the SOA header, hashes the
//! zone content for change detection, and derives the next serial per the
//! RFC 1912 date-coded convention.

use vstd::prelude::*;

use crate::dn::{spec_fqdn_text, spec_pqdn_text, FullyQualifiedDomainName};
use crate::resources::{Record, Zone, ZoneEntry, ZoneEntryV, ZoneRef, ZoneSpec};
use crate::dn::DomainName;
use crate::resources::Delegation;
use crate::text::{dec_u64, push_char, spec_dec, str_eq};

verus! {

pub const FNV_OFFSET: u64 = 0xcbf29ce484222325;

pub const FNV_PRIME: u64 = 0x100000001b3;

/// The FNV-1a state after absorbing the characters of `s` from `i` on,
/// starting from state `h`.
pub open spec fn spec_fnv1a_rec(s: Seq<char>, h: u64, i: int) -> u64
    decreases s.len() - i,
{
    if i < 0 || i >= s.len() {
        h
    } else {
        spec_fnv1a_rec(
            s,
            vstd::wrapping::u64_specs::wrapping_mul(h ^ (s[i] as u64), FNV_PRIME),
            i + 1,
        )
    }
}

/// The stable, order-sensitive content hash: FNV-1a over a character
/// sequence.
pub open spec fn spec_fnv1a(s: Seq<char>) -> u64 {
    spec_fnv1a_rec(s, FNV_OFFSET, 0)
}

/// Hashes a string with FNV-1a.
pub fn fnv1a(s: &str) -> (r: u64)
    ensures
        r == spec_fnv1a(s@),
{
    let n: usize = s.unicode_len();
    let mut h: u64 = FNV_OFFSET;
    let mut i: usize = 0;
    while i < n
        invariant
            i <= n,
            n == s@.len(),
            spec_fnv1a_rec(s@, h, i as int) == spec_fnv1a(s@),
        decreases n - i,
    {
        let c = s.get_char(i);
        h = (h ^ (c as u64)).wrapping_mul(FNV_PRIME);
        i = i + 1;
    }
    h
}

/// The text a domain name contributes to the hash input.
pub open spec fn spec_enc_domain_name(dn: DomainName) -> Seq<char> {
    if dn.spec_is_full() {
        spec_fqdn_text(dn.spec_segments())
    } else {
        spec_pqdn_text(dn.spec_segments())
    }
}

/// The text a declared parent reference contributes to the hash input.
pub open spec fn spec_enc_zone_ref(zr: Option<ZoneRef>) -> Seq<char> {
    match zr {
        Option::Some(z) => seq!['+'] + z.name@ + seq!['.'] + (match z.namespace {
            Option::Some(ns) => ns@,
            Option::None => Seq::empty(),
        }),
        Option::None => seq!['-'],
    }
}

/// The namespaces of a delegation, each followed by `,`.
pub open spec fn spec_enc_namespaces(ns: Seq<String>, i: int) -> Seq<char>
    decreases ns.len() - i,
{
    if i < 0 || i >= ns.len() {
        Seq::empty()
    } else {
        ns[i]@ + seq![','] + spec_enc_namespaces(ns, i + 1)
    }
}

/// The delegations of a zone, each as scope, `~`, pattern and `;`.
pub open spec fn spec_enc_delegations(ds: Seq<Delegation>, i: int) -> Seq<char>
    decreases ds.len() - i,
{
    if i < 0 || i >= ds.len() {
        Seq::empty()
    } else {
        spec_enc_namespaces(ds[i].namespaces@, 0) + seq!['~'] + spec_fqdn_text(ds[i].pattern@)
            + seq![';'] + spec_enc_delegations(ds, i + 1)
    }
}

/// A number in the hash input, closed by `|`.
pub open spec fn spec_enc_u32(n: u32) -> Seq<char> {
    spec_dec(n as nat) + seq!['|']
}

/// Everything of a zone's declared intent that the content hash covers.
pub open spec fn spec_enc_zone_spec(zs: ZoneSpec) -> Seq<char> {
    spec_enc_domain_name(zs.domain_name) + seq!['|'] + spec_enc_zone_ref(zs.zone_ref)
        + seq!['|'] + spec_enc_delegations(zs.delegations@, 0) + seq!['|'] + spec_enc_u32(
        zs.ttl,
    ) + spec_enc_u32(zs.refresh) + spec_enc_u32(zs.retry) + spec_enc_u32(zs.expire)
        + spec_enc_u32(zs.negative_response_cache)
}

/// One zone entry in the hash input; the order of fields and entries is
/// part of the hash.
pub open spec fn spec_enc_entry(e: ZoneEntryV) -> Seq<char> {
    spec_fqdn_text(e.fqdn) + seq!['|'] + e.type_ + seq!['|'] + e.class + seq!['|'] + spec_dec(
        e.ttl as nat,
    ) + seq!['|'] + e.rdata + seq!['\n']
}

/// The child entries of a zone in the hash input, in list order.
pub open spec fn spec_enc_entries(es: Seq<ZoneEntryV>, i: int) -> Seq<char>
    decreases es.len() - i,
{
    if i < 0 || i >= es.len() {
        Seq::empty()
    } else {
        spec_enc_entry(es[i]) + spec_enc_entries(es, i + 1)
    }
}

/// The whole hash input: the zone's declared intent, then its child
/// entries.
pub open spec fn spec_hash_input(zs: ZoneSpec, es: Seq<ZoneEntryV>) -> Seq<char> {
    spec_enc_zone_spec(zs) + seq!['#'] + spec_enc_entries(es, 0)
}

/// The persisted content hash: the decimal text of the FNV-1a hash of the
/// zone's intent and child entries.
pub open spec fn spec_zone_hash(zs: ZoneSpec, es: Seq<ZoneEntryV>) -> Seq<char> {
    spec_dec(spec_fnv1a(spec_hash_input(zs, es)) as nat)
}

/// Appends the hash-input text of the zone's declared intent.
#[verifier::rlimit(100)]
fn enc_append_zone_spec(out: &mut String, zs: &ZoneSpec)
    ensures
        final(out)@ == old(out)@ + spec_enc_zone_spec(*zs),
{
    let dtext = zs.domain_name.to_text();
    out.append(dtext.as_str());
    push_char(out, '|');
    match &zs.zone_ref {
        Option::Some(z) => {
            push_char(out, '+');
            out.append(z.name.as_str());
            push_char(out, '.');
            match &z.namespace {
                Option::Some(ns) => {
                    out.append(ns.as_str());
                },
                Option::None => {},
            }
        },
        Option::None => {
            push_char(out, '-');
        },
    }
    push_char(out, '|');
    let ghost mid = out@;
    let n: usize = zs.delegations.len();
    let mut i: usize = 0;
    while i < n
        invariant
            i <= n,
            n == zs.delegations.len(),
            out@ + spec_enc_delegations(zs.delegations@, i as int) == mid + spec_enc_delegations(
                zs.delegations@,
                0,
            ),
        decreases n - i,
    {
        let d = &zs.delegations[i];
        let dn: usize = d.namespaces.len();
        let mut j: usize = 0;
        let ghost dmid = out@;
        while j < dn
            invariant
                j <= dn,
                dn == d.namespaces.len(),
                d == &zs.delegations@[i as int],
                out@ + spec_enc_namespaces(d.namespaces@, j as int) == dmid
                    + spec_enc_namespaces(d.namespaces@, 0),
            decreases dn - j,
        {
            out.append(d.namespaces[j].as_str());
            push_char(out, ',');
            j = j + 1;
        }
        push_char(out, '~');
        let ptext = d.pattern.to_text();
        out.append(ptext.as_str());
        push_char(out, ';');
        i = i + 1;
    }
    push_char(out, '|');
    enc_append_u32(out, zs.ttl);
    enc_append_u32(out, zs.refresh);
    enc_append_u32(out, zs.retry);
    enc_append_u32(out, zs.expire);
    enc_append_u32(out, zs.negative_response_cache);
    proof {
        assert(final(out)@ =~= old(out)@ + spec_enc_zone_spec(*zs));
    }
}

/// Appends a number and its closing `|`.
fn enc_append_u32(out: &mut String, n: u32)
    ensures
        final(out)@ == old(out)@ + spec_enc_u32(n),
{
    let d = dec_u64(n as u64);
    out.append(d.as_str());
    push_char(out, '|');
    proof {
        assert(final(out)@ =~= old(out)@ + spec_enc_u32(n));
    }
}

/// Appends the hash-input text of one child entry.
fn enc_append_entry(out: &mut String, e: &ZoneEntry)
    ensures
        final(out)@ == old(out)@ + spec_enc_entry(e@),
{
    let ftext = e.fqdn.to_text();
    out.append(ftext.as_str());
    push_char(out, '|');
    out.append(e.type_.as_str());
    push_char(out, '|');
    out.append(e.class.as_str());
    push_char(out, '|');
    let d = dec_u64(e.ttl as u64);
    out.append(d.as_str());
    push_char(out, '|');
    out.append(e.rdata.as_str());
    push_char(out, '\n');
    proof {
        assert(final(out)@ =~= old(out)@ + spec_enc_entry(e@));
    }
}

/// Computes the persisted content hash of a zone's intent and child
/// entries.
pub fn zone_hash(zs: &ZoneSpec, entries: &Vec<ZoneEntry>) -> (r: String)
    ensures
        r@ == spec_zone_hash(*zs, entries.deep_view()),
{
    let mut input = String::new();
    enc_append_zone_spec(&mut input, zs);
    push_char(&mut input, '#');
    let ghost mid = input@;
    let n: usize = entries.len();
    let mut i: usize = 0;
    while i < n
        invariant
            i <= n,
            n == entries.len(),
            input@ + spec_enc_entries(entries.deep_view(), i as int) == mid + spec_enc_entries(
                entries.deep_view(),
                0,
            ),
        decreases n - i,
    {
        proof {
            assert(entries.deep_view()[i as int] == entries@[i as int]@);
        }
        enc_append_entry(&mut input, &entries[i]);
        i = i + 1;
    }
    proof {
        assert(input@ =~= spec_hash_input(*zs, entries.deep_view()));
    }
    let h = fnv1a(input.as_str());
    dec_u64(h)
}

/// A calendar date in UTC.
#[derive(Debug, Clone, Copy, PartialEq, Eq, Structural)]
pub struct UtcDate {
    pub year: i32,
    pub month: u8,
    pub day: u8,
}

/// A date the clock can report.
pub open spec fn spec_valid_date(d: UtcDate) -> bool {
    &&& -9999 <= d.year <= 9999
    &&& 1 <= d.month <= 12
    &&& 1 <= d.day <= 31
}

/// Relies on time::OffsetDateTime::now_utc, year, month and day: the
/// current UTC calendar date; the year stays within -9999..=9999, the
/// month within 1..=12 and the day within 1..=31.
#[verifier::external_body]
pub fn now_utc_date() -> (r: UtcDate)
    ensures
        spec_valid_date(r),
{
    let now = time::OffsetDateTime::now_utc();
    UtcDate { year: now.year(), month: u8::from(now.month()), day: now.day() }
}

/// The date-coded serial candidate `YYYY * 10^6 + MM * 10^4 + DD * 10^2`,
/// zero for the dates it cannot encode in 32 bits.
pub open spec fn spec_date_candidate(d: UtcDate) -> u32 {
    if 0 <= d.year <= 4293 && 1 <= d.month <= 12 && 1 <= d.day <= 31 {
        (d.year * 1000000 + d.month * 10000 + d.day * 100) as u32
    } else {
        0
    }
}

pub fn date_candidate(d: UtcDate) -> (r: u32)
    ensures
        r == spec_date_candidate(d),
{
    if 0 <= d.year && d.year <= 4293 && 1 <= d.month && d.month <= 12 && 1 <= d.day && d.day
        <= 31 {
        (d.year as u32) * 1000000 + (d.month as u32) * 10000 + (d.day as u32) * 100
    } else {
        0
    }
}

/// The serial written after a content change: the date-coded candidate,
/// or the old serial plus one, whichever is larger, so the serial always
/// strictly increases.
pub open spec fn spec_next_serial(last: u32, candidate: u32) -> u32 {
    if candidate >= last + 1 {
        candidate
    } else {
        ((last + 1) as u32)
    }
}

pub fn next_serial(last: u32, candidate: u32) -> (r: u32)
    requires
        last < u32::MAX,
    ensures
        r == spec_next_serial(last, candidate),
{
    if candidate >= last + 1 {
        candidate
    } else {
        last + 1
    }
}

/// The SOA-equivalent rdata of a zone, in the zone-file text form
/// `ns.<origin> noc.<origin> (<serial> <refresh> <retry> <expire>
/// <negativeResponseCache>)`.
pub open spec fn spec_soa_rdata(
    origin: Seq<Seq<char>>,
    serial: u32,
    refresh: u32,
    retry: u32,
    expire: u32,
    negative_response_cache: u32,
) -> Seq<char> {
    "ns."@ + spec_fqdn_text(origin) + " noc."@ + spec_fqdn_text(origin) + " ("@ + spec_dec(
        serial as nat,
    ) + " "@ + spec_dec(refresh as nat) + " "@ + spec_dec(retry as nat) + " "@ + spec_dec(
        expire as nat,
    ) + " "@ + spec_dec(negative_response_cache as nat) + ")"@
}

pub fn soa_rdata(
    origin: &FullyQualifiedDomainName,
    serial: u32,
    refresh: u32,
    retry: u32,
    expire: u32,
    negative_response_cache: u32,
) -> (r: String)
    ensures
        r@ == spec_soa_rdata(origin@, serial, refresh, retry, expire, negative_response_cache),
{
    let mut out = String::new();
    let otext = origin.to_text();
    out.append("ns.");
    out.append(otext.as_str());
    out.append(" noc.");
    out.append(otext.as_str());
    out.append(" (");
    let d = dec_u64(serial as u64);
    out.append(d.as_str());
    out.append(" ");
    let d = dec_u64(refresh as u64);
    out.append(d.as_str());
    out.append(" ");
    let d = dec_u64(retry as u64);
    out.append(d.as_str());
    out.append(" ");
    let d = dec_u64(expire as u64);
    out.append(d.as_str());
    out.append(" ");
    let d = dec_u64(negative_response_cache as u64);
    out.append(d.as_str());
    out.append(")");
    out
}

/// The entry a validated child record becomes: the record's resolved
/// name, type, class and data, the ttl defaulting to the zone's.
pub open spec fn spec_entry_of(zone: Zone, r: Record) -> ZoneEntryV {
    ZoneEntryV {
        fqdn: r.spec_fqdn()->Some_0,
        type_: r.spec.type_@,
        class: r.spec.class@,
        ttl: (match r.spec.ttl {
            Option::Some(t) => t,
            Option::None => zone.spec.ttl,
        }),
        rdata: r.spec.rdata@,
    }
}

/// Which of the given records become entries of the zone, in list order:
/// those whose parent back-reference label names this zone and whose
/// claim the zone's delegations still authorize. The rest are skipped,
/// never fatal.
pub open spec fn spec_child_entries(zone: Zone, records: Seq<Record>, i: int) -> Seq<
    ZoneEntryV,
>
    decreases records.len() - i,
{
    if i < 0 || i >= records.len() {
        Seq::empty()
    } else {
        let keep = (match records[i].parent_zone_label {
            Option::Some(l) => l@ == zone.spec_label(),
            Option::None => false,
        }) && zone.spec_validate_record(&records[i]);
        if keep {
            seq![spec_entry_of(zone, records[i])] + spec_child_entries(zone, records, i + 1)
        } else {
            spec_child_entries(zone, records, i + 1)
        }
    }
}

/// The status content the aggregator persists.
#[derive(Debug, PartialEq, Eq)]
pub struct StatusUpdate {
    pub hash: String,
    pub serial: u32,
    pub entries: Vec<ZoneEntry>,
}

/// The ghost value of a [`StatusUpdate`].
#[verifier::ext_equal]
pub struct StatusUpdateV {
    pub hash: Seq<char>,
    pub serial: u32,
    pub entries: Seq<ZoneEntryV>,
}

impl View for StatusUpdate {
    type V = StatusUpdateV;

    open spec fn view(&self) -> StatusUpdateV {
        StatusUpdateV {
            hash: self.hash@,
            serial: self.serial,
            entries: self.entries.deep_view(),
        }
    }
}

/// The zone's last persisted serial, zero when none was written yet.
pub open spec fn spec_last_serial(zone: Zone) -> u32 {
    match zone.status {
        Option::Some(st) => match st.serial {
            Option::Some(s) => s,
            Option::None => 0,
        },
        Option::None => 0,
    }
}

/// The zone's last persisted hash equals `h`.
pub open spec fn spec_hash_unchanged(zone: Zone, h: Seq<char>) -> bool {
    match zone.status {
        Option::Some(st) => match st.hash {
            Option::Some(old_hash) => old_hash@ == h,
            Option::None => false,
        },
        Option::None => false,
    }
}

/// What one aggregation pass computes for a zone from the observed
/// records and the date: nothing while the zone has no resolved name;
/// otherwise the child entries, the content hash, the serial (kept when
/// the hash is unchanged, advanced when it changed), and the entry list
/// with the synthesized SOA entry first.
pub open spec fn spec_compute_zone_status(
    zone: Zone,
    records: Seq<Record>,
    date: UtcDate,
) -> Option<StatusUpdateV> {
    match zone.spec_fqdn() {
        Option::None => Option::None,
        Option::Some(origin) => {
            let children = spec_child_entries(zone, records, 0);
            let new_hash = spec_zone_hash(zone.spec, children);
            let changed = !spec_hash_unchanged(zone, new_hash);
            let last = spec_last_serial(zone);
            let serial = if changed {
                spec_next_serial(last, spec_date_candidate(date))
            } else {
                last
            };
            let soa = ZoneEntryV {
                fqdn: origin,
                type_: "SOA"@,
                class: "IN"@,
                ttl: zone.spec.ttl,
                rdata: spec_soa_rdata(
                    origin,
                    serial,
                    zone.spec.refresh,
                    zone.spec.retry,
                    zone.spec.expire,
                    zone.spec.negative_response_cache,
                ),
            };
            Option::Some(
                StatusUpdateV { hash: new_hash, serial, entries: seq![soa] + children },
            )
        },
    }
}

/// One aggregation pass for a zone, deciding from the given snapshot and
/// date alone. Returns nothing while the zone has no resolved name yet.
pub fn compute_zone_status_at(zone: &Zone, records: &Vec<Record>, date: UtcDate) -> (r: Option<
    StatusUpdate,
>)
    requires
        spec_last_serial(*zone) < u32::MAX,
    ensures
        (match r {
            Option::Some(up) => spec_compute_zone_status(*zone, records@, date)
                == Option::Some(up@),
            Option::None => spec_compute_zone_status(*zone, records@, date) is None,
        }),
{
    let origin = match zone.fqdn() {
        Option::Some(f) => f.clone(),
        Option::None => {
            return Option::None;
        },
    };
    let zr = zone.zone_ref();
    let label = zr.as_label();
    proof {
        assert(label@ == zone.spec_label());
    }
    let n: usize = records.len();
    let mut children: Vec<ZoneEntry> = Vec::new();
    let mut i: usize = 0;
    proof {
        assert(children.deep_view() =~= Seq::<ZoneEntryV>::empty());
        assert(children.deep_view() + spec_child_entries(*zone, records@, 0)
            =~= spec_child_entries(*zone, records@, 0));
    }
    while i < n
        invariant
            i <= n,
            n == records.len(),
            label@ == zone.spec_label(),
            children.deep_view() + spec_child_entries(*zone, records@, i as int)
                == spec_child_entries(*zone, records@, 0),
        decreases n - i,
    {
        let rec = &records[i];
        let label_matches = match &rec.parent_zone_label {
            Option::Some(l) => str_eq(l.as_str(), label.as_str()),
            Option::None => false,
        };
        if label_matches && zone.validate_record(rec) {
            let rf = match rec.fqdn() {
                Option::Some(f) => f.clone(),
                Option::None => vstd::pervasive::unreached(),
            };
            let ttl: u32 = match rec.spec.ttl {
                Option::Some(t) => t,
                Option::None => zone.spec.ttl,
            };
            let ghost cv = children.deep_view();
            children.push(
                ZoneEntry {
                    fqdn: rf,
                    type_: rec.spec.type_.clone(),
                    class: rec.spec.class.clone(),
                    ttl,
                    rdata: rec.spec.rdata.clone(),
                },
            );
            proof {
                assert(children.deep_view() =~= cv.push(spec_entry_of(*zone, records@[
                    i as int
                ])));
                assert(cv.push(spec_entry_of(*zone, records@[i as int]))
                    + spec_child_entries(*zone, records@, i as int + 1) =~= cv + (seq![
                    spec_entry_of(*zone, records@[i as int])
                ] + spec_child_entries(*zone, records@, i as int + 1)));
            }
        }
        i = i + 1;
    }
    proof {
        assert(children.deep_view() + Seq::<ZoneEntryV>::empty() =~= children.deep_view());
    }
    let new_hash = zone_hash(&zone.spec, &children);
    let hash_matches = match &zone.status {
        Option::Some(st) => match &st.hash {
            Option::Some(h) => str_eq(h.as_str(), new_hash.as_str()),
            Option::None => false,
        },
        Option::None => false,
    };
    let last: u32 = match &zone.status {
        Option::Some(st) => match st.serial {
            Option::Some(s) => s,
            Option::None => 0,
        },
        Option::None => 0,
    };
    let serial: u32 = if !hash_matches {
        next_serial(last, date_candidate(date))
    } else {
        last
    };
    let rdata = soa_rdata(
        &origin,
        serial,
        zone.spec.refresh,
        zone.spec.retry,
        zone.spec.expire,
        zone.spec.negative_response_cache,
    );
    let soa = ZoneEntry {
        fqdn: origin,
        type_: "SOA".to_owned(),
        class: "IN".to_owned(),
        ttl: zone.spec.ttl,
        rdata,
    };
    let mut entries: Vec<ZoneEntry> = Vec::new();
    let ghost soav = soa@;
    entries.push(soa);
    let cn: usize = children.len();
    let mut j: usize = 0;
    proof {
        assert(entries.deep_view() =~= seq![soav]);
    }
    while j < cn
        invariant
            j <= cn,
            cn == children.len(),
            entries.deep_view() =~= seq![soav] + children.deep_view().take(j as int),
        decreases cn - j,
    {
        let ghost ev = entries.deep_view();
        entries.push(children[j].clone());
        proof {
            assert(entries.deep_view() =~= ev.push(children@[j as int]@));
            assert(entries.deep_view() =~= seq![soav] + children.deep_view().take(
                j as int + 1,
            ));
        }
        j = j + 1;
    }
    proof {
        assert(children.deep_view().take(cn as int) =~= children.deep_view());
    }
    let up = StatusUpdate { hash: new_hash, serial, entries };
    proof {
        assert(spec_compute_zone_status(*zone, records@, date) matches Some(v) && v =~~= up@);
    }
    Option::Some(up)
}

/// One aggregation pass for a zone at the current UTC date: the result is
/// what [`compute_zone_status_at`] yields for some date the clock can
/// report.
pub fn compute_zone_status(zone: &Zone, records: &Vec<Record>) -> (r: Option<StatusUpdate>)
    requires
        spec_last_serial(*zone) < u32::MAX,
    ensures
        exists|d: UtcDate|
            spec_valid_date(d) && (match r {
                Option::Some(up) => spec_compute_zone_status(*zone, records@, d)
                    == Option::Some(up@),
                Option::None => spec_compute_zone_status(*zone, records@, d) is None,
            }),
{
    let date = now_utc_date();
    let r = compute_zone_status_at(zone, records, date);
    proof {
        assert(spec_valid_date(date) && (match r {
            Option::Some(up) => spec_compute_zone_status(*zone, records@, date)
                == Option::Some(up@),
            Option::None => spec_compute_zone_status(*zone, records@, date) is None,
        }));
    }
    r
}

/// The serial never goes backwards, and strictly increases whenever the
/// content hash changed.
pub proof fn lemma_serial_monotonic(zone: Zone, records: Seq<Record>, date: UtcDate)
    requires
        spec_last_serial(zone) < u32::MAX,
    ensures
        spec_compute_zone_status(zone, records, date) matches Some(up) ==> up.serial
            >= spec_last_serial(zone),
        spec_compute_zone_status(zone, records, date) matches Some(up) ==> (
        !spec_hash_unchanged(zone, up.hash) ==> up.serial > spec_last_serial(zone)),
{
}

/// Two zones that agree on identity, intent and resolved name collect the
/// same child entries from the same records.
pub proof fn lemma_child_entries_congruent(z1: Zone, z2: Zone, records: Seq<Record>, i: int)
    requires
        z1.name@ == z2.name@,
        z1.namespace@ == z2.namespace@,
        z1.spec == z2.spec,
        z1.spec_fqdn() == z2.spec_fqdn(),
    ensures
        spec_child_entries(z1, records, i) == spec_child_entries(z2, records, i),
    decreases records.len() - i,
{
    if 0 <= i < records.len() {
        lemma_child_entries_congruent(z1, z2, records, i + 1);
        assert(z1.spec_label() == z2.spec_label());
        assert(z1.spec.delegations@ == z2.spec.delegations@);
        assert(z1.spec_validate_record(&records[i]) == z2.spec_validate_record(&records[i]));
        assert(spec_entry_of(z1, records[i]) == spec_entry_of(z2, records[i]));
    }
}

/// Aggregation is idempotent: once a pass has written its result, a
/// second pass over the same records — at any date — computes the same
/// hash, keeps the serial, and produces the identical status, so
/// redelivered reconciliations of an unchanged zone converge.
pub proof fn lemma_status_aggregation_idempotent(
    z1: Zone,
    z2: Zone,
    records: Seq<Record>,
    d1: UtcDate,
    d2: UtcDate,
)
    requires
        spec_compute_zone_status(z1, records, d1) matches Some(up1),
        z1.name@ == z2.name@,
        z1.namespace@ == z2.namespace@,
        z1.spec == z2.spec,
        z1.spec_fqdn() == z2.spec_fqdn(),
        spec_hash_unchanged(z2, spec_compute_zone_status(z1, records, d1)->Some_0.hash),
        spec_last_serial(z2) == spec_compute_zone_status(z1, records, d1)->Some_0.serial,
    ensures
        spec_compute_zone_status(z2, records, d2) == spec_compute_zone_status(z1, records, d1),
{
    lemma_child_entries_congruent(z1, z2, records, 0);
    let up1 = spec_compute_zone_status(z1, records, d1)->Some_0;
    let up2 = spec_compute_zone_status(z2, records, d2)->Some_0;
    assert(up2 =~~= up1);
}

} // verus!
