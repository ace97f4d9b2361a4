//! News through the trading kit: available only where the kit offers a news
//! tool and a reader is attached.

use vstd::prelude::*;

use super::{IntelligenceSourceAdapter, SourceError};
use crate::atk::CapabilityReport;
use crate::intelligence::evidence::{IntelligenceEvidence, IntelligenceSource};
use crate::intelligence::health::SourceErrorCategory;
use crate::intelligence::query::BoundedEvidenceQuery;

verus! {

#[derive(Clone, Copy, Debug, PartialEq, Eq, Structural)]
pub enum NewsCapability {
    Available,
    Missing,
}

impl NewsCapability {
    pub fn from_atk_news_available(available: bool) -> (c: NewsCapability)
        ensures
            c == (if available { NewsCapability::Available } else { NewsCapability::Missing }),
    {
        if available {
            NewsCapability::Available
        } else {
            NewsCapability::Missing
        }
    }

    /// Available exactly where the kit reports a news tool.
    pub fn from_atk_capabilities(report: &CapabilityReport) -> (c: NewsCapability)
        ensures
            c == (if report.news { NewsCapability::Available } else { NewsCapability::Missing }),
    {
        Self::from_atk_news_available(report.news)
    }
}

/// Something that reads news evidence for a query.
pub trait NewsReader {
    fn collect_news(&mut self, query: &BoundedEvidenceQuery) -> Result<Vec<IntelligenceEvidence>, SourceError>;
}

/// No reader: news is unavailable.
impl NewsReader for () {
    fn collect_news(&mut self, query: &BoundedEvidenceQuery) -> (r: Result<Vec<IntelligenceEvidence>, SourceError>)
        ensures
            r matches Err(e) && e.spec_source() == IntelligenceSource::AtkNews && e.spec_category()
                == SourceErrorCategory::Unavailable,
    {
        Err(SourceError::new(IntelligenceSource::AtkNews, SourceErrorCategory::Unavailable))
    }
}

pub struct NewsAdapter<R> {
    capability: NewsCapability,
    reader: Option<R>,
}

impl<R> NewsAdapter<R> {
    pub closed spec fn spec_capability(&self) -> NewsCapability {
        self.capability
    }

    pub closed spec fn spec_has_reader(&self) -> bool {
        self.reader is Some
    }

    pub fn without_reader(capability: NewsCapability) -> (a: NewsAdapter<R>)
        ensures
            a.spec_capability() == capability,
            !a.spec_has_reader(),
    {
        NewsAdapter { capability, reader: None }
    }

    pub fn with_reader(capability: NewsCapability, reader: R) -> (a: NewsAdapter<R>)
        ensures
            a.spec_capability() == capability,
            a.spec_has_reader(),
    {
        NewsAdapter { capability, reader: Some(reader) }
    }
}

impl<R: NewsReader> IntelligenceSourceAdapter for NewsAdapter<R> {
    open spec fn spec_source(&self) -> IntelligenceSource {
        IntelligenceSource::AtkNews
    }

    fn source(&self) -> (s: IntelligenceSource) {
        IntelligenceSource::AtkNews
    }

    fn is_enabled(&self) -> (b: bool) {
        true
    }

    fn set_enabled(&mut self, enabled: bool) {
    }

    /// Refused as a missing capability where the kit has no news tool, and
    /// as unavailable without a reader; else the reader's answer.
    fn collect(&mut self, query: &BoundedEvidenceQuery) -> (r: Result<Vec<IntelligenceEvidence>, SourceError>)
        ensures
            old(self).spec_capability() == NewsCapability::Missing ==> (r matches Err(e) && e.spec_source()
                == IntelligenceSource::AtkNews && e.spec_category() == SourceErrorCategory::CapabilityMissing),
            old(self).spec_capability() == NewsCapability::Available && !old(self).spec_has_reader() ==> (r matches Err(e)
                && e.spec_source() == IntelligenceSource::AtkNews && e.spec_category() == SourceErrorCategory::Unavailable),
    {
        if self.capability == NewsCapability::Missing {
            return Err(SourceError::new(IntelligenceSource::AtkNews, SourceErrorCategory::CapabilityMissing));
        }
        match &mut self.reader {
            Some(reader) => reader.collect_news(query),
            None => Err(SourceError::new(IntelligenceSource::AtkNews, SourceErrorCategory::Unavailable)),
        }
    }
}

} // verus!
