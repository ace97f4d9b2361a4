use vstd::prelude::*;

use super::error::DomainError;
use super::instrument::Instrument;
use crate::dec::{one_units, units, Dec};
use crate::ids::{EvidenceId, LineageId};
use crate::text::{is_blank, str_is_blank};
use crate::timestamp::Timestamp;

verus! {

#[derive(Debug, PartialEq, Eq, Hash)]
pub enum SourceKind {
    AtkNews,
    Polymarket,
    Reddit,
    MarxFinance,
    OkxMarket,
    Other(String),
}

impl Clone for SourceKind {
    fn clone(&self) -> (r: SourceKind)
        ensures
            r == *self,
    {
        match self {
            SourceKind::AtkNews => SourceKind::AtkNews,
            SourceKind::Polymarket => SourceKind::Polymarket,
            SourceKind::Reddit => SourceKind::Reddit,
            SourceKind::MarxFinance => SourceKind::MarxFinance,
            SourceKind::OkxMarket => SourceKind::OkxMarket,
            SourceKind::Other(name) => SourceKind::Other(name.clone()),
        }
    }
}

/// Anything that can report the kind of source it came from.
pub trait EvidenceSource {
    fn source_kind(&self) -> SourceKind;
}

impl EvidenceSource for SourceKind {
    fn source_kind(&self) -> SourceKind {
        self.clone()
    }
}

#[derive(Clone, Copy, Debug, PartialEq, Eq, Structural)]
pub enum EvidenceDirection {
    Supporting,
    Counter,
    Neutral,
}

#[derive(Debug, PartialEq, Eq)]
pub struct SourceEventId(String);

impl View for SourceEventId {
    type V = Seq<char>;

    closed spec fn view(&self) -> Seq<char> {
        self.0@
    }
}

impl Clone for SourceEventId {
    fn clone(&self) -> (r: SourceEventId)
        ensures
            r == *self,
    {
        SourceEventId(self.0.clone())
    }
}

impl SourceEventId {
    pub fn new(value: String) -> (r: Result<SourceEventId, DomainError>)
        ensures
            r is Ok <==> !is_blank(value@),
            r matches Ok(id) ==> id@ == value@,
            r matches Err(e) ==> e == DomainError::EmptyIdentifier("source_event_id"),
    {
        if str_is_blank(value.as_str()) {
            return Err(DomainError::EmptyIdentifier("source_event_id"));
        }
        Ok(SourceEventId(value))
    }

    pub fn as_str(&self) -> (s: &str)
        ensures
            s@ == self@,
    {
        self.0.as_str()
    }
}

/// A score in the closed unit interval.
pub open spec fn is_unit(v: Dec) -> bool {
    0 <= units(v@) <= one_units()
}

/// The outcome of checking that `value` lies in the unit interval.
pub open spec fn unit_check(field: &'static str, value: Dec) -> Result<(), DomainError> {
    if is_unit(value) {
        Ok(())
    } else {
        Err(DomainError::OutOfRange { field, value })
    }
}

/// The first failure of two checks run in order.
pub open spec fn then_check(first: Result<(), DomainError>, second: Result<(), DomainError>) -> Result<(), DomainError> {
    if first is Err {
        first
    } else {
        second
    }
}

pub fn validate_unit(field: &'static str, value: Dec) -> (r: Result<(), DomainError>)
    ensures
        r == unit_check(field, value),
{
    let zero = Dec::zero();
    let one = Dec::one();
    if value.lt(&zero) || one.lt(&value) {
        return Err(DomainError::OutOfRange { field, value });
    }
    Ok(())
}

#[derive(Debug, PartialEq, Eq)]
pub struct EvidenceReference {
    pub evidence_id: EvidenceId,
    pub source: SourceKind,
    pub source_event_id: SourceEventId,
    pub lineage_id: LineageId,
    pub instrument: Option<Instrument>,
    pub observed_at: Timestamp,
    pub direction: EvidenceDirection,
    pub strength: Dec,
    pub freshness: Dec,
    pub reliability: Dec,
    pub novelty: Dec,
    pub relevance: Dec,
    pub source_reference: Option<String>,
}

pub open spec fn reference_check(r: EvidenceReference) -> Result<(), DomainError> {
    then_check(
        unit_check("evidence strength", r.strength),
        then_check(
            unit_check("evidence freshness", r.freshness),
            then_check(
                unit_check("evidence reliability", r.reliability),
                then_check(
                    unit_check("evidence novelty", r.novelty),
                    unit_check("evidence relevance", r.relevance),
                ),
            ),
        ),
    )
}

impl EvidenceReference {
    pub fn new(
        evidence_id: EvidenceId,
        source: SourceKind,
        source_event_id: SourceEventId,
        lineage_id: LineageId,
        observed_at: Timestamp,
    ) -> (r: Result<EvidenceReference, DomainError>)
        ensures
            r matches Ok(e) && e.evidence_id == evidence_id && e.source == source
                && e.source_event_id@ == source_event_id@ && e.lineage_id == lineage_id
                && e.instrument is None && e.observed_at == observed_at && e.direction
                == EvidenceDirection::Neutral && units(e.strength@) == 0 && units(e.freshness@)
                == 0 && units(e.reliability@) == 0 && units(e.novelty@) == 0 && units(
                e.relevance@,
            ) == 0 && e.source_reference is None,
    {
        let reference = EvidenceReference {
            evidence_id,
            source,
            source_event_id,
            lineage_id,
            instrument: None,
            observed_at,
            direction: EvidenceDirection::Neutral,
            strength: Dec::zero(),
            freshness: Dec::zero(),
            reliability: Dec::zero(),
            novelty: Dec::zero(),
            relevance: Dec::zero(),
            source_reference: None,
        };
        proof {
            crate::dec::lemma_pow10_positive(28);
        }
        match reference.validate() {
            Ok(()) => Ok(reference),
            Err(e) => Err(e),
        }
    }

    pub fn validate(&self) -> (r: Result<(), DomainError>)
        ensures
            r == reference_check(*self),
    {
        validate_unit("evidence strength", self.strength)?;
        validate_unit("evidence freshness", self.freshness)?;
        validate_unit("evidence reliability", self.reliability)?;
        validate_unit("evidence novelty", self.novelty)?;
        validate_unit("evidence relevance", self.relevance)
    }

    pub fn clone_reference(&self) -> (r: EvidenceReference)
        ensures
            r.evidence_id == self.evidence_id,
            r.source == self.source,
            r.source_event_id@ == self.source_event_id@,
            r.lineage_id == self.lineage_id,
            r.instrument.is_some() == self.instrument.is_some(),
            r.instrument matches Some(i) ==> i@ == self.instrument->0@,
            r.observed_at == self.observed_at,
            r.direction == self.direction,
            r.strength == self.strength,
            r.freshness == self.freshness,
            r.reliability == self.reliability,
            r.novelty == self.novelty,
            r.relevance == self.relevance,
            r.source_reference == self.source_reference,
            reference_check(r) == reference_check(*self),
    {
        EvidenceReference {
            evidence_id: self.evidence_id,
            source: self.source.clone(),
            source_event_id: self.source_event_id.clone(),
            lineage_id: self.lineage_id,
            instrument: match &self.instrument {
                Some(i) => Some(i.clone()),
                None => None,
            },
            observed_at: self.observed_at,
            direction: self.direction,
            strength: self.strength,
            freshness: self.freshness,
            reliability: self.reliability,
            novelty: self.novelty,
            relevance: self.relevance,
            source_reference: match &self.source_reference {
                Some(s) => Some(s.clone()),
                None => None,
            },
        }
    }
}

#[derive(Debug, PartialEq, Eq)]
pub struct CounterSignal {
    pub evidence: EvidenceReference,
    pub summary: String,
}

impl CounterSignal {
    pub fn new(evidence: EvidenceReference, summary: String) -> (r: Result<CounterSignal, DomainError>)
        ensures
            r is Ok <==> (reference_check(evidence) is Ok && evidence.direction
                == EvidenceDirection::Counter && !is_blank(summary@)),
            r matches Ok(c) ==> c.evidence == evidence && c.summary == summary,
            r matches Err(e) ==> e == (if reference_check(evidence) is Err {
                reference_check(evidence)->Err_0
            } else if evidence.direction != EvidenceDirection::Counter {
                DomainError::NotCounterSignal
            } else {
                DomainError::EmptyCounterSignalSummary
            }),
    {
        evidence.validate()?;
        if evidence.direction != EvidenceDirection::Counter {
            return Err(DomainError::NotCounterSignal);
        }
        if str_is_blank(summary.as_str()) {
            return Err(DomainError::EmptyCounterSignalSummary);
        }
        Ok(CounterSignal { evidence, summary })
    }
}

} // verus!
