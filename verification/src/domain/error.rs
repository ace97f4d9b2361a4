use vstd::prelude::*;

use crate::dec::Dec;
use crate::text::concat;

verus! {

#[derive(Debug, PartialEq, Eq)]
pub enum DomainError {
    InvalidInstrument,
    EmptyUniverse,
    DuplicateInstrument(String),
    EmptyIdentifier(&'static str),
    OutOfRange { field: &'static str, value: Dec },
    NotPositive(&'static str),
    InvalidTimestampOrder,
    InvalidQuantity,
    InvalidPrice,
    InvalidHorizon,
    InvalidOpportunityRank,
    DuplicateOpportunityInstrument(String),
    DuplicateOpportunityRank(u32),
    NotCounterSignal,
    EmptyCounterSignalSummary,
    InconsistentDecisionExposure,
    MissingHoldReason,
    SellWithoutInventory,
    InstrumentMismatch,
}

} // verus!

verus! {

/// The message that describes a domain error.
pub open spec fn domain_error_text(e: DomainError) -> Seq<char> {
    match e {
        DomainError::InvalidInstrument => "instrument symbol must contain one base and one quote asset"@,
        DomainError::EmptyUniverse => "trading universe cannot be empty"@,
        DomainError::DuplicateInstrument(s) => "trading universe contains a duplicate instrument: "@ + s@,
        DomainError::EmptyIdentifier(f) => "identifier cannot be empty: "@ + f@,
        DomainError::OutOfRange { field, value } => "value for "@ + field@ + " must be between zero and one: "@
            + crate::dec::decimal_text(value@),
        DomainError::NotPositive(f) => "value must be greater than zero: "@ + f@,
        DomainError::InvalidTimestampOrder => "position timestamps are out of order"@,
        DomainError::InvalidQuantity => "position quantity cannot be negative"@,
        DomainError::InvalidPrice => "price must be greater than zero"@,
        DomainError::InvalidHorizon => "trade horizon must be greater than zero"@,
        DomainError::InvalidOpportunityRank => "opportunity rank must be greater than zero"@,
        DomainError::DuplicateOpportunityInstrument(s) => "opportunities contain a duplicate instrument: "@ + s@,
        DomainError::DuplicateOpportunityRank(n) => "opportunities contain a duplicate rank: "@
            + crate::text::decimal_digits(n as nat),
        DomainError::NotCounterSignal => "counter-signal evidence must have counter direction"@,
        DomainError::EmptyCounterSignalSummary => "counter-signal summary cannot be empty"@,
        DomainError::InconsistentDecisionExposure => "decision action is inconsistent with its exposure fields"@,
        DomainError::MissingHoldReason => "HOLD decisions must explain why no trade is being taken"@,
        DomainError::SellWithoutInventory => "SELL is invalid without an open position"@,
        DomainError::InstrumentMismatch => "decision instrument does not match the position instrument"@,
    }
}

impl DomainError {
    /// The error's message.
    pub fn message(&self) -> (s: String)
        ensures
            s@ == domain_error_text(*self),
    {
        match self {
            DomainError::InvalidInstrument => String::from_str("instrument symbol must contain one base and one quote asset"),
            DomainError::EmptyUniverse => String::from_str("trading universe cannot be empty"),
            DomainError::DuplicateInstrument(s) => concat("trading universe contains a duplicate instrument: ", s.as_str()),
            DomainError::EmptyIdentifier(f) => concat("identifier cannot be empty: ", f),
            DomainError::OutOfRange { field, value } => {
                let head = concat("value for ", field);
                let head = concat(head.as_str(), " must be between zero and one: ");
                let text = value.to_text();
                concat(head.as_str(), text.as_str())
            },
            DomainError::NotPositive(f) => concat("value must be greater than zero: ", f),
            DomainError::InvalidTimestampOrder => String::from_str("position timestamps are out of order"),
            DomainError::InvalidQuantity => String::from_str("position quantity cannot be negative"),
            DomainError::InvalidPrice => String::from_str("price must be greater than zero"),
            DomainError::InvalidHorizon => String::from_str("trade horizon must be greater than zero"),
            DomainError::InvalidOpportunityRank => String::from_str("opportunity rank must be greater than zero"),
            DomainError::DuplicateOpportunityInstrument(s) => concat("opportunities contain a duplicate instrument: ", s.as_str()),
            DomainError::DuplicateOpportunityRank(n) => {
                let digits = crate::text::u64_text(*n as u64);
                concat("opportunities contain a duplicate rank: ", digits.as_str())
            },
            DomainError::NotCounterSignal => String::from_str("counter-signal evidence must have counter direction"),
            DomainError::EmptyCounterSignalSummary => String::from_str("counter-signal summary cannot be empty"),
            DomainError::InconsistentDecisionExposure => String::from_str("decision action is inconsistent with its exposure fields"),
            DomainError::MissingHoldReason => String::from_str("HOLD decisions must explain why no trade is being taken"),
            DomainError::SellWithoutInventory => String::from_str("SELL is invalid without an open position"),
            DomainError::InstrumentMismatch => String::from_str("decision instrument does not match the position instrument"),
        }
    }
}

} // verus!
