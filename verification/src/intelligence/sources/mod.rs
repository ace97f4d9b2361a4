//! Intelligence source adapters and their failures.

use vstd::prelude::*;

use crate::intelligence::evidence::{IntelligenceEvidence, IntelligenceSource};
use crate::intelligence::health::SourceErrorCategory;
use crate::intelligence::query::BoundedEvidenceQuery;

pub mod marx;
pub mod news;
pub mod polymarket;
pub mod polymarket_markets;
pub mod polymarket_mcp;
pub mod polymarket_readers;
pub mod polymarket_rest;
pub mod reddit;

verus! {

#[derive(Clone, Copy, Debug, PartialEq, Eq, Structural)]
pub struct SourceError {
    provider: IntelligenceSource,
    category: SourceErrorCategory,
}

impl SourceError {
    pub closed spec fn spec_source(&self) -> IntelligenceSource {
        self.provider
    }

    pub closed spec fn spec_category(&self) -> SourceErrorCategory {
        self.category
    }

    pub fn new(source: IntelligenceSource, category: SourceErrorCategory) -> (e: SourceError)
        ensures
            e.spec_source() == source,
            e.spec_category() == category,
    {
        SourceError { provider: source, category }
    }

    pub fn source(&self) -> (s: IntelligenceSource)
        ensures
            s == self.spec_source(),
    {
        self.provider
    }

    pub fn category(&self) -> (c: SourceErrorCategory)
        ensures
            c == self.spec_category(),
    {
        self.category
    }
}

/// A source of intelligence evidence.
pub trait IntelligenceSourceAdapter {
    /// The source the adapter reads.
    spec fn spec_source(&self) -> IntelligenceSource;

    /// Whether the adapter can be switched off; one that cannot always takes
    /// part in collection.
    open spec fn spec_switchable(&self) -> bool {
        false
    }

    /// Whether the adapter takes part in collection.
    open spec fn spec_active(&self) -> bool {
        true
    }

    fn source(&self) -> (s: IntelligenceSource)
        ensures
            s == self.spec_source(),
    ;

    fn is_enabled(&self) -> (b: bool)
        ensures
            b == self.spec_active(),
    ;

    /// Switches a switchable adapter on or off; any other is left as it is.
    fn set_enabled(&mut self, enabled: bool)
        ensures
            final(self).spec_source() == old(self).spec_source(),
            final(self).spec_switchable() == old(self).spec_switchable(),
            final(self).spec_active() == if old(self).spec_switchable() {
                enabled
            } else {
                old(self).spec_active()
            },
    ;

    /// Collects records for the query; the adapter's source and whether it
    /// takes part stay as they were.
    fn collect(&mut self, query: &BoundedEvidenceQuery) -> (r: Result<Vec<IntelligenceEvidence>, SourceError>)
        ensures
            final(self).spec_source() == old(self).spec_source(),
            final(self).spec_switchable() == old(self).spec_switchable(),
            final(self).spec_active() == old(self).spec_active(),
    ;
}

} // verus!
