//! Intelligence evidence from news, prediction markets, community signals and
//! agent research, with lineage, freshness and source health.

use vstd::prelude::*;

use crate::dec::{decimal_text, Dec};
use crate::text::concat;

pub mod events;
pub mod evidence;
pub mod freshness;
pub mod health;
pub mod lineage;
pub mod query;
pub mod service;
pub mod sources;

pub use events::EventFingerprint;
pub use evidence::{
    AssetImpact, EvidencePayload, IntelligenceDirection, IntelligenceEvidence, IntelligenceSource, MarxEvidence,
    NewsEvidence, PredictionMarketEvidence, Probability, RedditEvidence, Score, SignedValue, SourceReference,
};

verus! {

#[derive(Clone, Copy, Debug, PartialEq, Eq)]
pub enum IntelligenceError {
    ScoreOutOfRange { field: &'static str, value: Dec },
    EmptyField { field: &'static str },
    FutureEventTime,
    NegativeValue { field: &'static str },
    PayloadSourceMismatch,
    InvalidEventFingerprint,
    InvalidTimeBucket,
    InvalidFreshnessWindow,
    FutureObservation,
    InvalidHistoryCapacity,
    OutOfOrderObservation,
}

pub open spec fn intelligence_error_text(e: IntelligenceError) -> Seq<char> {
    match e {
        IntelligenceError::ScoreOutOfRange { field, value } => field@ + " must be between zero and one: "@ + decimal_text(
            value@,
        ),
        IntelligenceError::EmptyField { field } => field@ + " cannot be empty"@,
        IntelligenceError::FutureEventTime => "event time cannot be later than observation time"@,
        IntelligenceError::NegativeValue { field } => field@ + " must be non-negative"@,
        IntelligenceError::PayloadSourceMismatch => "evidence source does not match its typed payload"@,
        IntelligenceError::InvalidEventFingerprint => "invalid event fingerprint"@,
        IntelligenceError::InvalidTimeBucket => "event time bucket must be greater than zero"@,
        IntelligenceError::InvalidFreshnessWindow => "freshness window must be greater than zero"@,
        IntelligenceError::FutureObservation => "event time is in the future relative to evaluation time"@,
        IntelligenceError::InvalidHistoryCapacity => "probability history capacity must be greater than zero"@,
        IntelligenceError::OutOfOrderObservation => "probability observation timestamps must be strictly increasing"@,
    }
}

impl IntelligenceError {
    /// The error's message.
    pub fn message(&self) -> (s: String)
        ensures
            s@ == intelligence_error_text(*self),
    {
        match self {
            IntelligenceError::ScoreOutOfRange { field, value } => {
                let head = concat(field, " must be between zero and one: ");
                let text = value.to_text();
                concat(head.as_str(), text.as_str())
            },
            IntelligenceError::EmptyField { field } => concat(field, " cannot be empty"),
            IntelligenceError::FutureEventTime => String::from_str("event time cannot be later than observation time"),
            IntelligenceError::NegativeValue { field } => concat(field, " must be non-negative"),
            IntelligenceError::PayloadSourceMismatch => String::from_str("evidence source does not match its typed payload"),
            IntelligenceError::InvalidEventFingerprint => String::from_str("invalid event fingerprint"),
            IntelligenceError::InvalidTimeBucket => String::from_str("event time bucket must be greater than zero"),
            IntelligenceError::InvalidFreshnessWindow => String::from_str("freshness window must be greater than zero"),
            IntelligenceError::FutureObservation => String::from_str("event time is in the future relative to evaluation time"),
            IntelligenceError::InvalidHistoryCapacity => String::from_str("probability history capacity must be greater than zero"),
            IntelligenceError::OutOfOrderObservation => String::from_str("probability observation timestamps must be strictly increasing"),
        }
    }
}

} // verus!
