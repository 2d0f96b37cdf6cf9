//! Declarative DNS zone management: a validated domain-name model, a
//! wildcard delegation-pattern matcher, and the zone-hierarchy resolution
//! and status-aggregation logic behind it.

pub mod dn;
pub mod pattern;
pub mod reconcile;
pub mod resources;
pub mod segment;
pub mod status;
pub mod text;
pub mod zonefile;

pub use crate::dn::{
    DomainName, DomainNameError, FullyQualifiedDomainName, FullyQualifiedDomainNameError,
    PartiallyQualifiedDomainName, PartiallyQualifiedDomainNameError,
};
pub use crate::pattern::{Pattern, PatternSegment, PatternSegmentError};
pub use crate::segment::{DomainSegment, DomainSegmentError};

use vstd::prelude::*;

verus! {

/// Outcome of a write decision: whether the store object was touched.
#[derive(Debug, Clone, Copy, PartialEq, Eq, Structural)]
pub enum Effect {
    Unchanged,
    Changed,
}

impl Effect {
    /// True exactly when the effect recorded a change.
    pub fn changed(&self) -> (r: bool)
        ensures
            r == (*self == Effect::Changed),
    {
        match self {
            Effect::Changed => true,
            Effect::Unchanged => false,
        }
    }
}

} // verus!
