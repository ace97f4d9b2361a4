use vstd::prelude::*;

use super::error::DomainError;
use super::evidence::{reference_check, then_check, unit_check, validate_unit, EvidenceReference};
use super::instrument::Instrument;
use super::positions::{position_check, PositionState};
use crate::dec::{one_units, units, Dec};
use crate::ids::DecisionId;
use crate::text::{any_not_blank, is_blank, str_is_blank, strings_any_not_blank};
use crate::timestamp::Timestamp;

verus! {

#[derive(Clone, Copy, Debug, PartialEq, Eq, Structural, Hash)]
pub enum TradeAction {
    Buy,
    Sell,
    Hold,
}

#[derive(Clone, Copy, Debug, PartialEq, Eq, Structural, Hash)]
pub enum Urgency {
    Low,
    Normal,
    High,
}

#[derive(Debug, PartialEq, Eq)]
pub struct Invalidation {
    pub description: String,
}

#[derive(Debug, PartialEq, Eq)]
pub struct TradeDecision {
    pub decision_id: DecisionId,
    pub instrument: Instrument,
    pub action: TradeAction,
    pub confidence: Dec,
    pub support_strength: Dec,
    pub counter_signal_strength: Dec,
    pub expected_horizon_secs: Option<u64>,
    pub desired_exposure_pct: Option<Dec>,
    pub requested_notional: Option<Dec>,
    pub desired_reduction_pct: Option<Dec>,
    pub urgency: Urgency,
    pub max_acceptable_price: Option<Dec>,
    pub why_trade: Vec<String>,
    pub why_not_trade: Vec<String>,
    pub reconsider_if: Vec<String>,
    pub invalidation: Option<Invalidation>,
    pub evidence_refs: Vec<EvidenceReference>,
    pub created_at: Timestamp,
}

pub open spec fn is_positive(v: Option<Dec>) -> bool {
    v matches Some(x) && units(x@) > 0
}

pub open spec fn positive_check(v: Option<Dec>, field: &'static str) -> Result<(), DomainError> {
    if is_positive(v) {
        Ok(())
    } else {
        Err(DomainError::NotPositive(field))
    }
}

pub open spec fn unit_positive_check(v: Option<Dec>, field: &'static str) -> Result<(), DomainError> {
    match v {
        None => Err(DomainError::NotPositive(field)),
        Some(x) => if units(x@) <= 0 {
            Err(DomainError::NotPositive(field))
        } else {
            unit_check(field, x)
        },
    }
}

pub open spec fn unit_option_check(v: Option<Dec>, field: &'static str) -> Result<(), DomainError> {
    match v {
        None => Ok(()),
        Some(x) => unit_check(field, x),
    }
}

pub open spec fn inconsistent_if(b: bool) -> Result<(), DomainError> {
    if b {
        Err(DomainError::InconsistentDecisionExposure)
    } else {
        Ok(())
    }
}

/// The checks that depend on the proposed action.
pub open spec fn action_check(d: TradeDecision) -> Result<(), DomainError> {
    match d.action {
        TradeAction::Buy => then_check(
            positive_check(d.requested_notional, "requested notional"),
            then_check(
                unit_positive_check(d.desired_exposure_pct, "desired exposure percentage"),
                inconsistent_if(d.desired_reduction_pct is Some),
            ),
        ),
        TradeAction::Sell => then_check(
            positive_check(d.desired_reduction_pct, "desired reduction percentage"),
            then_check(
                unit_option_check(d.desired_reduction_pct, "desired reduction percentage"),
                inconsistent_if(d.requested_notional is Some || d.desired_exposure_pct is Some),
            ),
        ),
        TradeAction::Hold => if !any_not_blank(d.why_not_trade@) {
            Err(DomainError::MissingHoldReason)
        } else {
            inconsistent_if(
                d.requested_notional is Some || d.desired_exposure_pct is Some
                    || d.desired_reduction_pct is Some || d.max_acceptable_price is Some,
            )
        },
    }
}

/// The checks of the cited evidence, from position `k` on.
pub open spec fn refs_check_from(refs: Seq<EvidenceReference>, instrument: Seq<char>, k: int) -> Result<(), DomainError>
    decreases refs.len() - k,
{
    if k < 0 || k >= refs.len() {
        Ok(())
    } else {
        then_check(
            reference_check(refs[k]),
            then_check(
                if refs[k].instrument matches Some(i) && i@ != instrument {
                    Err(DomainError::InstrumentMismatch)
                } else {
                    Ok(())
                },
                refs_check_from(refs, instrument, k + 1),
            ),
        )
    }
}

/// All the checks of a decision, in the order in which they are run.
pub open spec fn decision_check(d: TradeDecision) -> Result<(), DomainError> {
    then_check(
        unit_check("confidence", d.confidence),
        then_check(
            unit_check("support strength", d.support_strength),
            then_check(
                unit_check("counter-signal strength", d.counter_signal_strength),
                then_check(
                    if d.expected_horizon_secs == Some(0u64) {
                        Err(DomainError::InvalidHorizon)
                    } else {
                        Ok(())
                    },
                    then_check(
                        if d.max_acceptable_price matches Some(p) && units(p@) <= 0 {
                            Err(DomainError::InvalidPrice)
                        } else {
                            Ok(())
                        },
                        then_check(
                            action_check(d),
                            then_check(
                                if d.invalidation matches Some(inv) && is_blank(inv.description@) {
                                    Err(DomainError::EmptyIdentifier("invalidation.description"))
                                } else {
                                    Ok(())
                                },
                                refs_check_from(d.evidence_refs@, d.instrument@, 0),
                            ),
                        ),
                    ),
                ),
            ),
        ),
    )
}

/// The checks of a decision against the position held in its instrument.
pub open spec fn decision_position_check(d: TradeDecision, p: PositionState) -> Result<(), DomainError> {
    then_check(
        decision_check(d),
        if d.instrument@ != p.spec_instrument()@ {
            Err(DomainError::InstrumentMismatch)
        } else if d.action == TradeAction::Sell && !p.spec_is_open() {
            Err(DomainError::SellWithoutInventory)
        } else {
            Ok(())
        },
    )
}

fn require_positive(value: Option<Dec>, field: &'static str) -> (r: Result<(), DomainError>)
    ensures
        r == positive_check(value, field),
{
    match value {
        Some(v) => if v.is_positive() {
            Ok(())
        } else {
            Err(DomainError::NotPositive(field))
        },
        None => Err(DomainError::NotPositive(field)),
    }
}

fn require_unit(value: Option<Dec>, field: &'static str) -> (r: Result<(), DomainError>)
    ensures
        r == unit_positive_check(value, field),
{
    match value {
        None => Err(DomainError::NotPositive(field)),
        Some(v) => {
            if !v.is_positive() {
                return Err(DomainError::NotPositive(field));
            }
            validate_unit(field, v)
        },
    }
}

fn validate_unit_option(value: Option<Dec>, field: &'static str) -> (r: Result<(), DomainError>)
    ensures
        r == unit_option_check(value, field),
{
    if let Some(v) = value {
        validate_unit(field, v)?;
    }
    Ok(())
}

impl TradeDecision {
    pub fn buy(
        decision_id: DecisionId,
        instrument: Instrument,
        created_at: Timestamp,
        requested_notional: Dec,
        desired_exposure_pct: Dec,
    ) -> (d: TradeDecision)
        ensures
            d.action == TradeAction::Buy,
            d.requested_notional == Some(requested_notional),
            d.desired_exposure_pct == Some(desired_exposure_pct),
            d.desired_reduction_pct is None,
            d.why_not_trade@.len() == 0,
            d.is_base(decision_id, instrument@, created_at),
    {
        let mut d = Self::base(decision_id, instrument, created_at, TradeAction::Buy);
        d.requested_notional = Some(requested_notional);
        d.desired_exposure_pct = Some(desired_exposure_pct);
        d
    }

    pub fn sell(
        decision_id: DecisionId,
        instrument: Instrument,
        created_at: Timestamp,
        desired_reduction_pct: Dec,
    ) -> (d: TradeDecision)
        ensures
            d.action == TradeAction::Sell,
            d.requested_notional is None,
            d.desired_exposure_pct is None,
            d.desired_reduction_pct == Some(desired_reduction_pct),
            d.why_not_trade@.len() == 0,
            d.is_base(decision_id, instrument@, created_at),
    {
        let mut d = Self::base(decision_id, instrument, created_at, TradeAction::Sell);
        d.desired_reduction_pct = Some(desired_reduction_pct);
        d
    }

    pub fn hold(
        decision_id: DecisionId,
        instrument: Instrument,
        created_at: Timestamp,
        reason: String,
    ) -> (d: TradeDecision)
        ensures
            d.action == TradeAction::Hold,
            d.requested_notional is None,
            d.desired_exposure_pct is None,
            d.desired_reduction_pct is None,
            d.why_not_trade@ == seq![reason],
            d.is_base(decision_id, instrument@, created_at),
    {
        let mut d = Self::base(decision_id, instrument, created_at, TradeAction::Hold);
        d.why_not_trade.push(reason);
        d
    }

    /// The fields that every constructor leaves at their defaults.
    pub open spec fn is_base(&self, decision_id: DecisionId, instrument: Seq<char>, created_at: Timestamp) -> bool {
        &&& self.decision_id == decision_id
        &&& self.instrument@ == instrument
        &&& self.created_at == created_at
        &&& units(self.confidence@) == 0
        &&& units(self.support_strength@) == 0
        &&& units(self.counter_signal_strength@) == 0
        &&& self.expected_horizon_secs is None
        &&& self.urgency == Urgency::Normal
        &&& self.max_acceptable_price is None
        &&& self.why_trade@.len() == 0
        &&& self.reconsider_if@.len() == 0
        &&& self.invalidation is None
        &&& self.evidence_refs@.len() == 0
    }

    fn base(decision_id: DecisionId, instrument: Instrument, created_at: Timestamp, action: TradeAction) -> (d: TradeDecision)
        ensures
            d.action == action,
            d.requested_notional is None,
            d.desired_exposure_pct is None,
            d.desired_reduction_pct is None,
            d.why_not_trade@.len() == 0,
            d.is_base(decision_id, instrument@, created_at),
    {
        TradeDecision {
            decision_id,
            instrument,
            action,
            confidence: Dec::zero(),
            support_strength: Dec::zero(),
            counter_signal_strength: Dec::zero(),
            expected_horizon_secs: None,
            desired_exposure_pct: None,
            requested_notional: None,
            desired_reduction_pct: None,
            urgency: Urgency::Normal,
            max_acceptable_price: None,
            why_trade: Vec::new(),
            why_not_trade: Vec::new(),
            reconsider_if: Vec::new(),
            invalidation: None,
            evidence_refs: Vec::new(),
            created_at,
        }
    }

    pub fn validate(&self) -> (r: Result<(), DomainError>)
        ensures
            r == decision_check(*self),
    {
        validate_unit("confidence", self.confidence)?;
        validate_unit("support strength", self.support_strength)?;
        validate_unit("counter-signal strength", self.counter_signal_strength)?;
        if self.expected_horizon_secs == Some(0u64) {
            return Err(DomainError::InvalidHorizon);
        }
        if let Some(price) = self.max_acceptable_price {
            if !price.is_positive() {
                return Err(DomainError::InvalidPrice);
            }
        }
        self.validate_action()?;
        if let Some(invalidation) = &self.invalidation {
            if str_is_blank(invalidation.description.as_str()) {
                return Err(DomainError::EmptyIdentifier("invalidation.description"));
            }
        }
        self.validate_references()
    }

    fn validate_action(&self) -> (r: Result<(), DomainError>)
        ensures
            r == action_check(*self),
    {
        match self.action {
            TradeAction::Buy => {
                require_positive(self.requested_notional, "requested notional")?;
                require_unit(self.desired_exposure_pct, "desired exposure percentage")?;
                if self.desired_reduction_pct.is_some() {
                    return Err(DomainError::InconsistentDecisionExposure);
                }
            },
            TradeAction::Sell => {
                require_positive(self.desired_reduction_pct, "desired reduction percentage")?;
                validate_unit_option(self.desired_reduction_pct, "desired reduction percentage")?;
                if self.requested_notional.is_some() || self.desired_exposure_pct.is_some() {
                    return Err(DomainError::InconsistentDecisionExposure);
                }
            },
            TradeAction::Hold => {
                if !strings_any_not_blank(&self.why_not_trade) {
                    return Err(DomainError::MissingHoldReason);
                }
                if self.requested_notional.is_some() || self.desired_exposure_pct.is_some()
                    || self.desired_reduction_pct.is_some() || self.max_acceptable_price.is_some() {
                    return Err(DomainError::InconsistentDecisionExposure);
                }
            },
        }
        Ok(())
    }

    fn validate_references(&self) -> (r: Result<(), DomainError>)
        ensures
            r == refs_check_from(self.evidence_refs@, self.instrument@, 0),
    {
        let refs = &self.evidence_refs;
        let n = refs.len();
        let mut k: usize = n;
        // Walk from the back so that the result so far is the check of the suffix.
        let mut result: Result<(), DomainError> = Ok(());
        while k > 0
            invariant
                n == refs@.len(),
                k <= n,
                result == refs_check_from(refs@, self.instrument@, k as int),
            decreases k,
        {
            k = k - 1;
            let item = &refs[k];
            let mismatch = match &item.instrument {
                Some(i) => !i.same_as(&self.instrument),
                None => false,
            };
            match item.validate() {
                Err(e) => {
                    result = Err(e);
                },
                Ok(()) => {
                    if mismatch {
                        result = Err(DomainError::InstrumentMismatch);
                    }
                },
            }
        }
        result
    }

    pub fn validate_for_position(&self, position: &PositionState) -> (r: Result<(), DomainError>)
        ensures
            r == decision_position_check(*self, *position),
    {
        self.validate()?;
        if !self.instrument.same_as(position.instrument()) {
            return Err(DomainError::InstrumentMismatch);
        }
        if self.action == TradeAction::Sell && !position.is_open() {
            return Err(DomainError::SellWithoutInventory);
        }
        Ok(())
    }
}

} // verus!
