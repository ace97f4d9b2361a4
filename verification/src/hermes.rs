//! Structured ingress for decisions emitted by the independent
//! `prooftrade-agent` Hermes runtime.
//!
//! A [`ValidatedAgentDecision`] is a validated proposed intent. It is not
//! RiskEngine approval and it has no execution capability.

use vstd::prelude::*;

use crate::dec::Dec;
use crate::domain::decisions::{decision_check, Invalidation, TradeAction, TradeDecision, Urgency};
use crate::domain::error::DomainError;
use crate::domain::evidence::{reference_check, then_check, unit_check, EvidenceDirection, EvidenceReference, SourceEventId, SourceKind};
use crate::domain::instrument::{valid_symbol, Instrument};
use crate::domain::universe::{no_duplicates, universe_error, TradingUniverse};
use crate::ids::{DecisionId, EvidenceId, LineageId};
use crate::text::{is_blank, str_is_blank};
use crate::timestamp::Timestamp;

verus! {

pub const CURRENT_SCHEMA_VERSION: u16 = 1u16;

pub const HERMES_PROFILE: &'static str = "prooftrade-agent";

pub const INVALID_AGENT_DECISION: &'static str = "INVALID_AGENT_DECISION";

pub const NO_TRADE: &'static str = "NO_TRADE";

#[verifier::external_type_specification]
#[verifier::external_body]
pub struct ExJsonError(serde_json::Error);

#[derive(Debug)]
pub enum HermesError {
    MalformedPayload(serde_json::Error),
    UnsupportedSchemaVersion(u16),
    UnexpectedProfile(String),
    MissingField(&'static str),
    InvalidField { field: &'static str, reason: String },
    UnknownInstrument(String),
    DomainValidation(DomainError),
}

/// The message of a refusal other than a malformed payload.
pub open spec fn hermes_error_text(e: HermesError) -> Seq<char> {
    match e {
        HermesError::MalformedPayload(_) => "malformed Hermes decision payload: "@,
        HermesError::UnsupportedSchemaVersion(v) => "unsupported Hermes schema version: "@ + crate::text::decimal_digits(
            v as nat,
        ),
        HermesError::UnexpectedProfile(p) => "unexpected Hermes profile: "@ + p@,
        HermesError::MissingField(f) => "missing required Hermes decision field: "@ + f@,
        HermesError::InvalidField { field, reason } => "invalid Hermes decision field "@ + field@ + ": "@ + reason@,
        HermesError::UnknownInstrument(s) => "Hermes decision references an instrument outside the configured universe: "@
            + s@,
        HermesError::DomainValidation(d) => "Hermes decision failed domain validation: "@ + crate::domain::error::domain_error_text(
            d,
        ),
    }
}

/// `serde_json::Error`'s `Display`: the parser's description of the
/// failure and where it happened. Its wording is not stated.
#[verifier::external_body]
fn json_error_message(error: &serde_json::Error) -> (s: String) {
    error.to_string()
}

impl HermesError {
    /// The refusal's message; that of a malformed payload ends with the
    /// parser's description.
    pub fn message(&self) -> (s: String)
        ensures
            !(*self is MalformedPayload) ==> s@ == hermes_error_text(*self),
            *self is MalformedPayload ==> hermes_error_text(*self).is_prefix_of(s@),
    {
        match self {
            HermesError::MalformedPayload(e) => {
                let detail = json_error_message(e);
                let s = crate::text::concat("malformed Hermes decision payload: ", detail.as_str());
                proof {
                    assert("malformed Hermes decision payload: "@ =~= s@.subrange(0, "malformed Hermes decision payload: "@.len() as int));
                }
                s
            },
            HermesError::UnsupportedSchemaVersion(v) => {
                let digits = crate::text::u64_text(*v as u64);
                crate::text::concat("unsupported Hermes schema version: ", digits.as_str())
            },
            HermesError::UnexpectedProfile(p) => crate::text::concat("unexpected Hermes profile: ", p.as_str()),
            HermesError::MissingField(f) => crate::text::concat("missing required Hermes decision field: ", f),
            HermesError::InvalidField { field, reason } => {
                let head = crate::text::concat("invalid Hermes decision field ", field);
                let head = crate::text::concat(head.as_str(), ": ");
                crate::text::concat(head.as_str(), reason.as_str())
            },
            HermesError::UnknownInstrument(s) => crate::text::concat(
                "Hermes decision references an instrument outside the configured universe: ",
                s.as_str(),
            ),
            HermesError::DomainValidation(d) => {
                let text = d.message();
                crate::text::concat("Hermes decision failed domain validation: ", text.as_str())
            },
        }
    }

    /// Every rejected agent payload is explicitly a no-trade outcome.
    pub fn means_no_trade(&self) -> (b: bool)
        ensures
            b,
    {
        true
    }

    pub fn code(&self) -> (s: &'static str)
        ensures
            s@ == INVALID_AGENT_DECISION@,
    {
        INVALID_AGENT_DECISION
    }

    pub fn outcome(&self) -> (s: &'static str)
        ensures
            s@ == NO_TRADE@,
    {
        NO_TRADE
    }
}

#[derive(Debug)]
pub struct RawInvalidation {
    pub description: String,
}

#[derive(Debug)]
pub struct RawEvidenceReference {
    pub evidence_id: u128,
    pub source: SourceKind,
    pub source_event_id: String,
    pub lineage_id: u128,
    pub instrument: Option<String>,
    pub observed_at: Timestamp,
    pub direction: EvidenceDirection,
    pub strength: Dec,
    pub freshness: Dec,
    pub reliability: Dec,
    pub novelty: Dec,
    pub relevance: Dec,
    pub source_reference: Option<String>,
}

#[derive(Debug)]
pub struct RawHermesDecision {
    pub schema_version: u16,
    pub profile: String,
    pub request_id: String,
    pub run_id: String,
    pub emitted_at: Timestamp,
    pub decision_id: u128,
    pub instrument: String,
    pub action: TradeAction,
    pub confidence: Dec,
    pub support_strength: Dec,
    pub counter_signal_strength: Dec,
    pub expected_horizon_secs: Option<u64>,
    pub desired_exposure_pct: Option<Dec>,
    pub requested_notional: Option<Dec>,
    pub desired_reduction_pct: Option<Dec>,
    pub urgency: Urgency,
    pub max_acceptable_price: Option<Dec>,
    pub why_trade: Vec<String>,
    pub why_not_trade: Vec<String>,
    pub reconsider_if: Vec<String>,
    pub invalidation: Option<RawInvalidation>,
    pub evidence_refs: Vec<RawEvidenceReference>,
    pub created_at: Timestamp,
}

#[derive(Debug, PartialEq, Eq)]
pub struct DecisionProvenance {
    pub schema_version: u16,
    pub profile: String,
    pub request_id: String,
    pub run_id: String,
    pub emitted_at: Timestamp,
}

/// A validated Hermes intent paired with provenance.
///
/// This type is deliberately not an approved order. Approval and execution
/// remain owned by later RiskEngine and ExecutionEngine boundaries.
#[derive(Debug, PartialEq, Eq)]
pub struct ValidatedAgentDecision {
    decision: TradeDecision,
    provenance: DecisionProvenance,
}

impl ValidatedAgentDecision {
    pub closed spec fn spec_decision(&self) -> TradeDecision {
        self.decision
    }

    pub closed spec fn spec_provenance(&self) -> DecisionProvenance {
        self.provenance
    }

    pub fn decision(&self) -> (d: &TradeDecision)
        ensures
            *d == self.spec_decision(),
    {
        &self.decision
    }

    pub fn provenance(&self) -> (p: &DecisionProvenance)
        ensures
            *p == self.spec_provenance(),
    {
        &self.provenance
    }
}

/// Request metadata shared by future Hermes transports.
#[derive(Debug, PartialEq, Eq)]
pub struct HermesRequest {
    pub request_id: String,
}

/// Narrow transport seam; implementations return structured JSON for the
/// decoder and expose no exchange or order-writing capability.
pub trait HermesClient {
    type Error;

    fn request_decision(&self, request: &HermesRequest) -> Result<String, Self::Error>;
}

/// Why an agent payload is refused, without building its message.
pub enum HermesFault {
    Schema(u16),
    Profile,
    Missing(&'static str),
    Invalid(&'static str, &'static str),
    Universe,
    Unknown,
    Domain(DomainError),
}

/// `e` is the error that stands for the fault on `raw` and the universe `u`.
pub open spec fn hermes_fault_is(f: HermesFault, e: HermesError, raw: RawHermesDecision, u: Seq<Seq<char>>) -> bool {
    match f {
        HermesFault::Schema(v) => e matches HermesError::UnsupportedSchemaVersion(x) && x == v,
        HermesFault::Profile => e matches HermesError::UnexpectedProfile(p) && p@ == raw.profile@,
        HermesFault::Missing(field) => e matches HermesError::MissingField(x) && x == field,
        HermesFault::Invalid(field, reason) => e matches HermesError::InvalidField { field: x, reason: r } && x == field
            && r@ == reason@,
        HermesFault::Universe => e matches HermesError::DomainValidation(x) && universe_error(u, x),
        HermesFault::Unknown => e matches HermesError::UnknownInstrument(s) && s@ == raw.instrument@,
        HermesFault::Domain(x) => e matches HermesError::DomainValidation(y) && y == x,
    }
}

/// `e` is the error that stands for a fault that needs no context.
pub open spec fn fault_matches(f: HermesFault, e: HermesError) -> bool {
    match f {
        HermesFault::Schema(v) => e matches HermesError::UnsupportedSchemaVersion(x) && x == v,
        HermesFault::Missing(field) => e matches HermesError::MissingField(x) && x == field,
        HermesFault::Invalid(field, reason) => e matches HermesError::InvalidField { field: x, reason: r } && x == field
            && r@ == reason@,
        HermesFault::Domain(x) => e matches HermesError::DomainValidation(y) && y == x,
        _ => false,
    }
}

/// The refusal of the envelope and the decision's own fields, in check order.
pub open spec fn envelope_fault(raw: RawHermesDecision, u: Seq<Seq<char>>) -> Option<HermesFault> {
    if raw.schema_version != CURRENT_SCHEMA_VERSION {
        Some(HermesFault::Schema(raw.schema_version))
    } else if raw.profile@ != HERMES_PROFILE@ {
        Some(HermesFault::Profile)
    } else if is_blank(raw.request_id@) {
        Some(HermesFault::Missing("request_id"))
    } else if is_blank(raw.run_id@) {
        Some(HermesFault::Missing("run_id"))
    } else if raw.decision_id == 0 {
        Some(HermesFault::Invalid("decision_id", "must not be the nil UUID"))
    } else if !(u.len() > 0 && no_duplicates(u)) {
        Some(HermesFault::Universe)
    } else if !valid_symbol(raw.instrument@) {
        Some(HermesFault::Invalid("instrument", "must be a valid spot symbol"))
    } else if !u.contains(raw.instrument@) {
        Some(HermesFault::Unknown)
    } else if raw.action == TradeAction::Buy && raw.requested_notional is None {
        Some(HermesFault::Missing("requested_notional"))
    } else if raw.action == TradeAction::Buy && raw.desired_exposure_pct is None {
        Some(HermesFault::Missing("desired_exposure_pct"))
    } else if raw.action == TradeAction::Sell && raw.desired_reduction_pct is None {
        Some(HermesFault::Missing("desired_reduction_pct"))
    } else {
        None
    }
}

/// The converted reference carries the raw reference's fields.
pub open spec fn reference_from(e: EvidenceReference, raw: RawEvidenceReference) -> bool {
    &&& e.evidence_id == EvidenceId(raw.evidence_id)
    &&& e.source == raw.source
    &&& e.source_event_id@ == raw.source_event_id@
    &&& e.lineage_id == LineageId(raw.lineage_id)
    &&& (match (e.instrument, raw.instrument) {
        (Some(i), Some(s)) => i@ == s@,
        (None, None) => true,
        _ => false,
    })
    &&& e.observed_at == raw.observed_at
    &&& e.direction == raw.direction
    &&& e.strength == raw.strength
    &&& e.freshness == raw.freshness
    &&& e.reliability == raw.reliability
    &&& e.novelty == raw.novelty
    &&& e.relevance == raw.relevance
    &&& e.source_reference == raw.source_reference
}

/// The score checks of a cited reference, as reference validation runs them.
pub open spec fn raw_scores_check(r: RawEvidenceReference) -> Result<(), DomainError> {
    then_check(
        unit_check("evidence strength", r.strength),
        then_check(
            unit_check("evidence freshness", r.freshness),
            then_check(
                unit_check("evidence reliability", r.reliability),
                then_check(unit_check("evidence novelty", r.novelty), unit_check("evidence relevance", r.relevance)),
            ),
        ),
    )
}

/// The refusal of one cited reference, in check order.
pub open spec fn reference_fault(raw: RawEvidenceReference, instrument: Seq<char>) -> Option<HermesFault> {
    if raw.evidence_id == 0 {
        Some(HermesFault::Invalid("evidence_refs.evidence_id", "must not be the nil UUID"))
    } else if raw.lineage_id == 0 {
        Some(HermesFault::Invalid("evidence_refs.lineage_id", "must not be the nil UUID"))
    } else if raw.instrument matches Some(s) && !valid_symbol(s@) {
        Some(HermesFault::Invalid("evidence_refs.instrument", "must be a valid spot symbol"))
    } else if is_blank(raw.source_event_id@) {
        Some(HermesFault::Domain(DomainError::EmptyIdentifier("source_event_id")))
    } else if raw_scores_check(raw) is Err {
        Some(HermesFault::Domain(raw_scores_check(raw)->Err_0))
    } else if raw.instrument matches Some(s) && s@ != instrument {
        Some(HermesFault::Domain(DomainError::InstrumentMismatch))
    } else {
        None
    }
}

/// The decision carries the raw decision's fields, the parsed instrument and
/// the converted references.
pub open spec fn decision_from(d: TradeDecision, raw: RawHermesDecision, refs: Seq<EvidenceReference>) -> bool {
    &&& d.decision_id == DecisionId(raw.decision_id)
    &&& d.instrument@ == raw.instrument@
    &&& d.action == raw.action
    &&& d.confidence == raw.confidence
    &&& d.support_strength == raw.support_strength
    &&& d.counter_signal_strength == raw.counter_signal_strength
    &&& d.expected_horizon_secs == raw.expected_horizon_secs
    &&& d.desired_exposure_pct == raw.desired_exposure_pct
    &&& d.requested_notional == raw.requested_notional
    &&& d.desired_reduction_pct == raw.desired_reduction_pct
    &&& d.urgency == raw.urgency
    &&& d.max_acceptable_price == raw.max_acceptable_price
    &&& d.why_trade@ == raw.why_trade@
    &&& d.why_not_trade@ == raw.why_not_trade@
    &&& d.reconsider_if@ == raw.reconsider_if@
    &&& (match (d.invalidation, raw.invalidation) {
        (Some(i), Some(r)) => i.description@ == r.description@,
        (None, None) => true,
        _ => false,
    })
    &&& d.evidence_refs@ == refs
    &&& d.created_at == raw.created_at
}

/// The references convert one for one, and none of the first `n` is refused.
pub open spec fn references_pass(raws: Seq<RawEvidenceReference>, refs: Seq<EvidenceReference>, instrument: Seq<char>, n: int) -> bool {
    &&& n <= raws.len()
    &&& refs.len() == n
    &&& forall|k: int| 0 <= k < n ==> reference_from(#[trigger] refs[k], raws[k]) && reference_fault(raws[k], instrument) is None
}

fn require_non_empty(value: &str, field: &'static str) -> (r: Result<(), HermesError>)
    ensures
        r is Ok <==> !is_blank(value@),
        r matches Err(e) ==> e matches HermesError::MissingField(x) && x == field,
{
    if str_is_blank(value) {
        return Err(HermesError::MissingField(field));
    }
    Ok(())
}

fn invalid_field(field: &'static str, reason: &str) -> (e: HermesError)
    ensures
        e matches HermesError::InvalidField { field: x, reason: r } && x == field && r@ == reason@,
{
    HermesError::InvalidField { field, reason: String::from_str(reason) }
}

/// Converts a cited reference; it must name real IDs, a spot instrument if
/// any, pass reference validation and agree with the decision's instrument.
pub fn convert_evidence_reference(raw: RawEvidenceReference, decision_instrument: &Instrument) -> (r: Result<EvidenceReference, HermesError>)
    ensures
        r is Ok <==> reference_fault(raw, decision_instrument@) is None,
        r matches Ok(e) ==> reference_from(e, raw),
        r matches Err(e) ==> fault_matches(reference_fault(raw, decision_instrument@)->0, e),
{
    proof {
        reveal_strlit("must not be the nil UUID");
        reveal_strlit("must be a valid spot symbol");
    }
    if raw.evidence_id == 0 {
        let e = invalid_field("evidence_refs.evidence_id", "must not be the nil UUID");
        return Err(e);
    }
    if raw.lineage_id == 0 {
        let e = invalid_field("evidence_refs.lineage_id", "must not be the nil UUID");
        return Err(e);
    }
    let evidence_instrument = match &raw.instrument {
        Some(value) => match Instrument::parse(value.as_str()) {
            Ok(i) => Some(i),
            Err(_) => {
                let e = invalid_field("evidence_refs.instrument", "must be a valid spot symbol");
                return Err(e);
            },
        },
        None => None,
    };
    let source_event_id = match SourceEventId::new(raw.source_event_id) {
        Ok(id) => id,
        Err(e) => {
            return Err(HermesError::DomainValidation(e));
        },
    };
    let reference = EvidenceReference {
        evidence_id: EvidenceId::from_uuid(raw.evidence_id),
        source: raw.source,
        source_event_id,
        lineage_id: LineageId::from_uuid(raw.lineage_id),
        instrument: evidence_instrument,
        observed_at: raw.observed_at,
        direction: raw.direction,
        strength: raw.strength,
        freshness: raw.freshness,
        reliability: raw.reliability,
        novelty: raw.novelty,
        relevance: raw.relevance,
        source_reference: raw.source_reference,
    };
    match reference.validate() {
        Ok(()) => {},
        Err(e) => return Err(HermesError::DomainValidation(e)),
    }
    match &reference.instrument {
        Some(i) => {
            if !i.same_as(decision_instrument) {
                return Err(HermesError::DomainValidation(DomainError::InstrumentMismatch));
            }
        },
        None => {},
    }
    Ok(reference)
}

/// The first refused reference from position `k` on, with its fault.
pub open spec fn refs_fault(raws: Seq<RawEvidenceReference>, instrument: Seq<char>, k: int) -> Option<HermesFault>
    decreases raws.len() - k,
{
    if k < 0 || k >= raws.len() {
        None
    } else if reference_fault(raws[k], instrument) is Some {
        reference_fault(raws[k], instrument)
    } else {
        refs_fault(raws, instrument, k + 1)
    }
}

/// The provenance records the envelope of the raw decision.
pub open spec fn provenance_from(p: DecisionProvenance, raw: RawHermesDecision) -> bool {
    &&& p.schema_version == raw.schema_version
    &&& p.profile@ == raw.profile@
    &&& p.request_id@ == raw.request_id@
    &&& p.run_id@ == raw.run_id@
    &&& p.emitted_at == raw.emitted_at
}

/// The outcome of validating a raw decision against a universe: refused for
/// the first fault in check order, refused by domain validation of the
/// decision it builds, or that decision with its provenance.
pub open spec fn validated_as(raw: RawHermesDecision, u: Seq<Seq<char>>, r: Result<ValidatedAgentDecision, HermesError>) -> bool {
    match envelope_fault(raw, u) {
        Some(f) => r matches Err(e) && hermes_fault_is(f, e, raw, u),
        None => match refs_fault(raw.evidence_refs@, raw.instrument@, 0) {
            Some(f) => r matches Err(e) && fault_matches(f, e),
            None => {
                ||| r matches Ok(v) && decision_from(v.spec_decision(), raw, v.spec_decision().evidence_refs@)
                    && references_pass(raw.evidence_refs@, v.spec_decision().evidence_refs@, raw.instrument@, raw.evidence_refs@.len() as int)
                    && decision_check(v.spec_decision()) is Ok && provenance_from(v.spec_provenance(), raw)
                ||| r matches Err(HermesError::DomainValidation(e)) && exists|d: TradeDecision| decision_from(d, raw, d.evidence_refs@)
                    && references_pass(raw.evidence_refs@, d.evidence_refs@, raw.instrument@, raw.evidence_refs@.len() as int)
                    && #[trigger] decision_check(d) == Err::<(), DomainError>(e)
            },
        },
    }
}

proof fn lemma_refs_fault_skip(raws: Seq<RawEvidenceReference>, instrument: Seq<char>, k: int)
    requires
        0 <= k < raws.len(),
        reference_fault(raws[k], instrument) is None,
    ensures
        refs_fault(raws, instrument, k) == refs_fault(raws, instrument, k + 1),
{
}

impl RawHermesDecision {
    /// Validates the raw decision against the universe. A rejected payload is
    /// a no-trade outcome; a validated one is a proposal, not an approval.
    pub fn into_validated(self, universe: &TradingUniverse) -> (r: Result<ValidatedAgentDecision, HermesError>)
        ensures
            validated_as(self, universe@, r),
    {
        let ghost raw = self;
        proof {
            reveal_strlit("prooftrade-agent");
            reveal_strlit("must not be the nil UUID");
            reveal_strlit("must be a valid spot symbol");
        }
        if self.schema_version != CURRENT_SCHEMA_VERSION {
            return Err(HermesError::UnsupportedSchemaVersion(self.schema_version));
        }
        let expected_profile = String::from_str(HERMES_PROFILE);
        if self.profile != expected_profile {
            return Err(HermesError::UnexpectedProfile(self.profile));
        }
        require_non_empty(self.request_id.as_str(), "request_id")?;
        require_non_empty(self.run_id.as_str(), "run_id")?;
        if self.decision_id == 0 {
            return Err(invalid_field("decision_id", "must not be the nil UUID"));
        }
        match universe.validate() {
            Ok(()) => {},
            Err(e) => return Err(HermesError::DomainValidation(e)),
        }
        let instrument = match Instrument::parse(self.instrument.as_str()) {
            Ok(i) => i,
            Err(_) => return Err(invalid_field("instrument", "must be a valid spot symbol")),
        };
        if !universe.contains(&instrument) {
            return Err(HermesError::UnknownInstrument(self.instrument));
        }
        let decision_id = DecisionId::from_uuid(self.decision_id);
        let mut decision = match self.action {
            TradeAction::Buy => {
                let notional = match self.requested_notional {
                    Some(n) => n,
                    None => return Err(HermesError::MissingField("requested_notional")),
                };
                let exposure = match self.desired_exposure_pct {
                    Some(x) => x,
                    None => return Err(HermesError::MissingField("desired_exposure_pct")),
                };
                TradeDecision::buy(decision_id, instrument.clone(), self.created_at, notional, exposure)
            },
            TradeAction::Sell => {
                let reduction = match self.desired_reduction_pct {
                    Some(x) => x,
                    None => return Err(HermesError::MissingField("desired_reduction_pct")),
                };
                TradeDecision::sell(decision_id, instrument.clone(), self.created_at, reduction)
            },
            TradeAction::Hold => {
                let mut reason = String::new();
                let mut i: usize = 0;
                while i < self.why_not_trade.len()
                    invariant
                        i <= self.why_not_trade@.len(),
                    decreases self.why_not_trade.len() - i,
                {
                    if !str_is_blank(self.why_not_trade[i].as_str()) {
                        reason = self.why_not_trade[i].clone();
                        break;
                    }
                    i = i + 1;
                }
                TradeDecision::hold(decision_id, instrument.clone(), self.created_at, reason)
            },
        };
        let RawHermesDecision {
            schema_version,
            profile,
            request_id,
            run_id,
            emitted_at,
            decision_id: _,
            instrument: _,
            action: _,
            confidence,
            support_strength,
            counter_signal_strength,
            expected_horizon_secs,
            desired_exposure_pct,
            requested_notional,
            desired_reduction_pct,
            urgency,
            max_acceptable_price,
            why_trade,
            why_not_trade,
            reconsider_if,
            invalidation,
            evidence_refs,
            created_at: _,
        } = self;
        decision.confidence = confidence;
        decision.support_strength = support_strength;
        decision.counter_signal_strength = counter_signal_strength;
        decision.expected_horizon_secs = expected_horizon_secs;
        decision.desired_exposure_pct = desired_exposure_pct;
        decision.requested_notional = requested_notional;
        decision.desired_reduction_pct = desired_reduction_pct;
        decision.urgency = urgency;
        decision.max_acceptable_price = max_acceptable_price;
        decision.why_trade = why_trade;
        decision.why_not_trade = why_not_trade;
        decision.reconsider_if = reconsider_if;
        decision.invalidation = match invalidation {
            Some(value) => Some(Invalidation { description: value.description }),
            None => None,
        };
        let mut raws = evidence_refs;
        let ghost all = raws@;
        let total = raws.len();
        let mut refs: Vec<EvidenceReference> = Vec::new();
        let mut k: usize = 0;
        while raws.len() > 0
            invariant
                all == raw.evidence_refs@,
                k + raws@.len() == all.len(),
                raws@ == all.subrange(k as int, all.len() as int),
                references_pass(all, refs@, raw.instrument@, k as int),
                refs_fault(all, raw.instrument@, 0) == refs_fault(all, raw.instrument@, k as int),
                instrument@ == raw.instrument@,
                envelope_fault(raw, universe@) is None,
                all.len() == total,
                raw == self,
            decreases raws.len(),
        {
            let next = raws.remove(0);
            proof {
                assert(next == all[k as int]);
            }
            match convert_evidence_reference(next, &instrument) {
                Ok(reference) => {
                    proof {
                        lemma_refs_fault_skip(all, raw.instrument@, k as int);
                    }
                    refs.push(reference);
                },
                Err(e) => {
                    proof {
                        assert(reference_fault(all[k as int], raw.instrument@) is Some);
                        assert(refs_fault(all, raw.instrument@, k as int) == reference_fault(all[k as int], raw.instrument@));
                        assert(fault_matches(refs_fault(all, raw.instrument@, 0)->0, e));
                    }
                    return Err(e);
                },
            }
            proof {
                assert(raws@ =~= all.subrange(k + 1, all.len() as int));
            }
            k = k + 1;
        }
        decision.evidence_refs = refs;
        match decision.validate() {
            Ok(()) => {},
            Err(e) => return Err(HermesError::DomainValidation(e)),
        }
        Ok(ValidatedAgentDecision {
            decision,
            provenance: DecisionProvenance { schema_version, profile, request_id, run_id, emitted_at },
        })
    }

    /// Validates a decision for the active request: its request ID must be
    /// the request's, then it is validated as `into_validated` does.
    pub fn into_validated_for_request(self, universe: &TradingUniverse, request: &HermesRequest) -> (r: Result<ValidatedAgentDecision, HermesError>)
        ensures
            self.request_id@ != request.request_id@ ==> (r matches Err(HermesError::InvalidField { field, reason }) && field
                == "request_id" && reason@ == "does not match the active Hermes request"@),
            self.request_id@ == request.request_id@ ==> validated_as(self, universe@, r),
    {
        proof {
            reveal_strlit("does not match the active Hermes request");
        }
        if self.request_id != request.request_id {
            return Err(invalid_field("request_id", "does not match the active Hermes request"));
        }
        self.into_validated(universe)
    }
}

/// A refused payload never yields a decision: whatever is wrong with it,
/// the outcome is a no-trade error.
pub proof fn law_malformed_means_no_trade(raw: RawHermesDecision, u: Seq<Seq<char>>, r: Result<ValidatedAgentDecision, HermesError>)
    requires
        validated_as(raw, u, r),
        envelope_fault(raw, u) is Some || refs_fault(raw.evidence_refs@, raw.instrument@, 0) is Some,
    ensures
        r is Err,
{
}

/// A decision that passes validation is a valid trade decision on an
/// instrument of the universe.
pub proof fn law_validated_is_valid(raw: RawHermesDecision, u: Seq<Seq<char>>, r: Result<ValidatedAgentDecision, HermesError>)
    requires
        validated_as(raw, u, r),
        r is Ok,
    ensures
        decision_check(r->Ok_0.spec_decision()) is Ok,
        u.contains(r->Ok_0.spec_decision().instrument@),
{
}

} // verus!
