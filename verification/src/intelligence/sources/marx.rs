//! Marx Finance research agents as an intelligence source.

use vstd::prelude::*;

use super::{IntelligenceSourceAdapter, SourceError};
use crate::intelligence::evidence::{IntelligenceEvidence, IntelligenceSource};
use crate::intelligence::query::BoundedEvidenceQuery;

verus! {

/// Reads Marx Finance research for a query.
pub trait MarxReader {
    fn collect_marx(&mut self, query: &BoundedEvidenceQuery) -> Result<Vec<IntelligenceEvidence>, SourceError>;
}

pub struct MarxAdapter<R> {
    reader: R,
}

impl<R> MarxAdapter<R> {
    pub closed spec fn spec_reader(&self) -> R {
        self.reader
    }

    pub fn new(reader: R) -> (a: MarxAdapter<R>)
        ensures
            a.spec_reader() == reader,
    {
        MarxAdapter { reader }
    }
}

impl<R: MarxReader> IntelligenceSourceAdapter for MarxAdapter<R> {
    open spec fn spec_source(&self) -> IntelligenceSource {
        IntelligenceSource::MarxFinance
    }

    fn source(&self) -> (s: IntelligenceSource) {
        IntelligenceSource::MarxFinance
    }

    fn is_enabled(&self) -> (b: bool) {
        true
    }

    fn set_enabled(&mut self, enabled: bool) {
    }

    fn collect(&mut self, query: &BoundedEvidenceQuery) -> Result<Vec<IntelligenceEvidence>, SourceError> {
        self.reader.collect_marx(query)
    }
}

} // verus!
