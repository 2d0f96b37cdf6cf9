//! The zone-file export resource: references upstream zones and tracks
//! the hash and serial of the zone-file content last built from each.

use vstd::prelude::*;

use crate::resources::ZoneRef;

verus! {

/// Intent of a zone-file export: which zones to render, and the name of
/// the config object to write, if not the resource's own.
#[derive(Debug, PartialEq, Eq)]
pub struct ZoneFileSpec {
    /// References to upstream zones, optionally in other namespaces.
    pub zone_refs: Vec<ZoneRef>,
    pub config_map_name: Option<String>,
}

/// Derived state of a zone-file export, per referenced zone (keyed by its
/// canonical label): the last observed content hash, used to trigger
/// rebuilds, and the serial of the latest generated zone file.
#[derive(Debug, PartialEq, Eq)]
pub struct ZoneFileStatus {
    pub hash: Vec<(String, String)>,
    pub serial: Vec<(String, u32)>,
}

/// A namespaced zone-file export object as observed in the store.
#[derive(Debug, PartialEq, Eq)]
pub struct ZoneFile {
    pub name: String,
    pub namespace: String,
    pub spec: ZoneFileSpec,
    pub status: Option<ZoneFileStatus>,
}

impl ZoneFile {
    /// Retrieve the zone-file's zone references, but populate the
    /// namespace, if not specified by the reference itself.
    pub fn zone_ref(&self) -> (r: Vec<ZoneRef>)
        ensures
            r@.len() == self.spec.zone_refs@.len(),
            forall|i: int|
                0 <= i < r@.len() ==> (#[trigger] r@[i]).name@ == self.spec.zone_refs@[i].name@
                    && (r@[i].namespace matches Some(ns) && ns@ == (
                match self.spec.zone_refs@[i].namespace {
                    Option::Some(n) => n@,
                    Option::None => self.namespace@,
                })),
    {
        let n: usize = self.spec.zone_refs.len();
        let mut r: Vec<ZoneRef> = Vec::new();
        let mut i: usize = 0;
        while i < n
            invariant
                i <= n,
                n == self.spec.zone_refs@.len(),
                r@.len() == i,
                forall|j: int|
                    0 <= j < i ==> (#[trigger] r@[j]).name@ == self.spec.zone_refs@[j].name@
                        && (r@[j].namespace matches Some(ns) && ns@ == (
                    match self.spec.zone_refs@[j].namespace {
                        Option::Some(n) => n@,
                        Option::None => self.namespace@,
                    })),
            decreases n - i,
        {
            let zr = &self.spec.zone_refs[i];
            let namespace: String = match &zr.namespace {
                Option::Some(ns) => ns.clone(),
                Option::None => self.namespace.clone(),
            };
            r.push(ZoneRef { name: zr.name.clone(), namespace: Option::Some(namespace) });
            i = i + 1;
        }
        r
    }
}

} // verus!
