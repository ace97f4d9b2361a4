//! The operator's read model pieces and its narrow safety control surface:
//! run and agent states, research views, source health bookkeeping, and
//! how operator requests are routed.

use vstd::prelude::*;

use crate::decision::orchestrator::ProposalKind;
use crate::decision::ranking::RankedOpportunityContext;
use crate::decision::{ResearchBudget, ResearchRequest};
use crate::dec::decimal_text;
use crate::domain::instrument::Instrument;
use crate::execution::ExecutionState;
use crate::intelligence::evidence::{IntelligenceEvidence, IntelligenceSource};
use crate::intelligence::health::{SourceErrorCategory, SourceHealthStatus};
use crate::intelligence::sources::SourceError;
use crate::risk::{OperatingMode, SafetyState};
use crate::text::str_eq;
use crate::timestamp::Timestamp;

verus! {

#[derive(Clone, Copy, Debug, PartialEq, Eq, Structural)]
pub enum OperatorRunStatus {
    Idle,
    Running,
    Completed,
    NoAction,
    Failed,
    Blocked,
}

impl Default for OperatorRunStatus {
    fn default() -> (s: OperatorRunStatus)
        ensures
            s == OperatorRunStatus::Idle,
    {
        OperatorRunStatus::Idle
    }
}

#[derive(Clone, Copy, Debug, PartialEq, Eq, Structural)]
pub enum OperatorRunPhase {
    Idle,
    Researching,
    Deciding,
    RiskCheck,
    Executing,
    Reconciling,
    Portfolio,
    Complete,
}

impl Default for OperatorRunPhase {
    fn default() -> (p: OperatorRunPhase)
        ensures
            p == OperatorRunPhase::Idle,
    {
        OperatorRunPhase::Idle
    }
}

#[derive(Clone, Copy, Debug, PartialEq, Eq, Structural)]
pub enum OperatorAgentStatus {
    Unknown,
    Idle,
    Researching,
    Proposed,
    Degraded,
}

/// A research request as the operator sees it.
#[derive(Debug)]
pub struct OperatorResearchRequest {
    pub source: IntelligenceSource,
    pub instrument: Instrument,
    pub rationale: String,
}

impl OperatorResearchRequest {
    pub fn from_request(request: &ResearchRequest) -> (r: OperatorResearchRequest)
        ensures
            r.source == request.source,
            r.instrument == request.instrument,
            r.rationale@ == request.rationale@,
    {
        OperatorResearchRequest {
            source: request.source,
            instrument: request.instrument.clone(),
            rationale: request.rationale.clone(),
        }
    }
}

/// A source failure as the operator sees it.
#[derive(Clone, Copy, Debug, PartialEq, Eq, Structural)]
pub struct OperatorResearchError {
    pub source: IntelligenceSource,
    pub category: SourceErrorCategory,
}

impl OperatorResearchError {
    pub fn from_error(error: &SourceError) -> (r: OperatorResearchError)
        ensures
            r.source == error.spec_source(),
            r.category == error.spec_category(),
    {
        OperatorResearchError { source: error.source(), category: error.category() }
    }
}

/// The research budget as the operator sees it.
#[derive(Clone, Copy, Debug, PartialEq, Eq, Structural)]
pub struct OperatorResearchBudget {
    pub max_source_calls: usize,
    pub max_deep_research_candidates: usize,
    pub max_actionable_decisions: usize,
    pub max_results_per_query: usize,
    pub max_results_per_source: usize,
}

impl OperatorResearchBudget {
    pub fn from_budget(value: &ResearchBudget) -> (b: OperatorResearchBudget)
        ensures
            b.max_source_calls == value.max_source_calls,
            b.max_deep_research_candidates == value.max_deep_research_candidates,
            b.max_actionable_decisions == value.max_actionable_decisions,
            b.max_results_per_query == value.max_results_per_query,
            b.max_results_per_source == value.max_results_per_source,
    {
        OperatorResearchBudget {
            max_source_calls: value.max_source_calls,
            max_deep_research_candidates: value.max_deep_research_candidates,
            max_actionable_decisions: value.max_actionable_decisions,
            max_results_per_query: value.max_results_per_query,
            max_results_per_source: value.max_results_per_source,
        }
    }
}

/// What the current cycle's research looks like.
#[derive(Debug)]
pub struct OperatorResearchView {
    pub trigger: Option<String>,
    pub requests: Vec<OperatorResearchRequest>,
    pub errors: Vec<OperatorResearchError>,
    pub budget: Option<OperatorResearchBudget>,
    pub truncated: bool,
}

impl Default for OperatorResearchView {
    fn default() -> (v: OperatorResearchView)
        ensures
            v.trigger is None,
            v.requests@.len() == 0,
            v.errors@.len() == 0,
            v.budget is None,
            !v.truncated,
    {
        OperatorResearchView { trigger: None, requests: Vec::new(), errors: Vec::new(), budget: None, truncated: false }
    }
}

/// A ranked opportunity as the operator sees it: the instrument, its score
/// as text, and a summary.
#[derive(Debug)]
pub struct OperatorOpportunity {
    pub instrument: Instrument,
    pub score: String,
    pub summary: String,
}

/// The summary an opportunity is shown with: that of its first supporting
/// record, else of its first counter record, else a generic label.
pub open spec fn opportunity_summary(supporting: Seq<IntelligenceEvidence>, counter: Seq<IntelligenceEvidence>) -> Seq<char> {
    if supporting.len() > 0 {
        supporting[0].summary@
    } else if counter.len() > 0 {
        counter[0].summary@
    } else {
        "Ranked attention candidate"@
    }
}

impl OperatorOpportunity {
    pub fn from_ranked(ranked: &RankedOpportunityContext) -> (o: OperatorOpportunity)
        ensures
            o.instrument == ranked.ranking.instrument,
            o.score@ == decimal_text(ranked.ranking.opportunity_score@),
            o.summary@ == opportunity_summary(ranked.supporting_evidence@, ranked.counter_evidence@),
    {
        let summary = if ranked.supporting_evidence.len() > 0 {
            ranked.supporting_evidence[0].summary.clone()
        } else if ranked.counter_evidence.len() > 0 {
            ranked.counter_evidence[0].summary.clone()
        } else {
            String::from_str("Ranked attention candidate")
        };
        OperatorOpportunity {
            instrument: ranked.ranking.instrument.clone(),
            score: ranked.ranking.opportunity_score.to_text(),
            summary,
        }
    }
}

/// A source's health as the operator sees it.
#[derive(Clone, Copy, Debug, PartialEq, Eq, Structural)]
pub struct OperatorSourceView {
    pub source: IntelligenceSource,
    pub status: SourceHealthStatus,
    pub last_success: Option<Timestamp>,
    pub last_attempt: Option<Timestamp>,
    pub last_error: Option<SourceErrorCategory>,
    pub consecutive_failures: u32,
    pub signal_count: usize,
}

/// The health a source failure leaves: unavailable where the source cannot
/// be reached or lacks what it needs, disabled where it is switched off,
/// degraded otherwise.
pub open spec fn status_for_error(category: SourceErrorCategory) -> SourceHealthStatus {
    match category {
        SourceErrorCategory::Unavailable => SourceHealthStatus::Unavailable,
        SourceErrorCategory::Unauthorized => SourceHealthStatus::Unavailable,
        SourceErrorCategory::CapabilityMissing => SourceHealthStatus::Unavailable,
        SourceErrorCategory::ProcessFailure => SourceHealthStatus::Unavailable,
        SourceErrorCategory::Disabled => SourceHealthStatus::Disabled,
        _ => SourceHealthStatus::Degraded,
    }
}

pub fn source_status_for_error(category: SourceErrorCategory) -> (s: SourceHealthStatus)
    ensures
        s == status_for_error(category),
{
    match category {
        SourceErrorCategory::Unavailable => SourceHealthStatus::Unavailable,
        SourceErrorCategory::Unauthorized => SourceHealthStatus::Unavailable,
        SourceErrorCategory::CapabilityMissing => SourceHealthStatus::Unavailable,
        SourceErrorCategory::ProcessFailure => SourceHealthStatus::Unavailable,
        SourceErrorCategory::Disabled => SourceHealthStatus::Disabled,
        _ => SourceHealthStatus::Degraded,
    }
}

/// How many records come from the source.
pub open spec fn count_from(signals: Seq<IntelligenceEvidence>, source: IntelligenceSource) -> nat
    decreases signals.len(),
{
    if signals.len() == 0 {
        0
    } else {
        count_from(signals.drop_last(), source) + if signals.last().source == source { 1nat } else { 0nat }
    }
}

proof fn lemma_count_bound(signals: Seq<IntelligenceEvidence>, source: IntelligenceSource)
    ensures
        count_from(signals, source) <= signals.len(),
    decreases signals.len(),
{
    if signals.len() > 0 {
        lemma_count_bound(signals.drop_last(), source);
    }
}

pub fn signal_count(signals: &Vec<IntelligenceEvidence>, source: IntelligenceSource) -> (n: usize)
    ensures
        n == count_from(signals@, source),
{
    let mut n: usize = 0;
    let mut i: usize = 0;
    while i < signals.len()
        invariant
            i <= signals@.len(),
            n == count_from(signals@.take(i as int), source),
        decreases signals.len() - i,
    {
        proof {
            assert(signals@.take(i + 1).drop_last() =~= signals@.take(i as int));
            lemma_count_bound(signals@.take(i as int), source);
        }
        if signals[i].source == source {
            n = n + 1;
        }
        i = i + 1;
    }
    proof {
        assert(signals@.take(signals@.len() as int) =~= signals@);
    }
    n
}

/// A source's view after an attempt at `at` that ended with the status:
/// a healthy attempt is a success and clears the failure run; any other
/// lengthens it (saturating).
pub open spec fn attempted(v: OperatorSourceView, status: SourceHealthStatus, error: Option<SourceErrorCategory>, at: Timestamp, count: nat) -> OperatorSourceView {
    OperatorSourceView {
        source: v.source,
        status,
        last_success: if status == SourceHealthStatus::Healthy { Some(at) } else { v.last_success },
        last_attempt: Some(at),
        last_error: error,
        consecutive_failures: if status == SourceHealthStatus::Healthy {
            0
        } else if v.consecutive_failures == u32::MAX {
            u32::MAX
        } else {
            (v.consecutive_failures + 1) as u32
        },
        signal_count: count as usize,
    }
}

/// The view of a source first seen in an attempt at `at`.
pub open spec fn first_attempt(source: IntelligenceSource, status: SourceHealthStatus, error: Option<SourceErrorCategory>, at: Timestamp, count: nat) -> OperatorSourceView {
    OperatorSourceView {
        source,
        status,
        last_success: if status == SourceHealthStatus::Healthy { Some(at) } else { None },
        last_attempt: Some(at),
        last_error: error,
        consecutive_failures: if status == SourceHealthStatus::Healthy { 0 } else { 1 },
        signal_count: count as usize,
    }
}

/// The first view of the source, where there is one.
pub open spec fn first_view_of(v: Seq<OperatorSourceView>, source: IntelligenceSource) -> Option<int> {
    if exists|i: int| 0 <= i < v.len() && (#[trigger] v[i]).source == source {
        Some(choose|i: int| 0 <= i < v.len() && (#[trigger] v[i]).source == source && forall|j: int| 0 <= j < i ==> v[j].source != source)
    } else {
        None
    }
}

/// Records an attempt on a source: its first view is updated, or a view is
/// added for a source not seen before; its signal count is recounted.
pub fn update_source_health(
    sources: &mut Vec<OperatorSourceView>,
    source: IntelligenceSource,
    status: SourceHealthStatus,
    error: Option<SourceErrorCategory>,
    at: Timestamp,
    signals: &Vec<IntelligenceEvidence>,
)
    ensures
        match first_view_of(old(sources)@, source) {
            Some(k) => final(sources)@ == old(sources)@.update(k, attempted(old(sources)@[k], status, error, at, count_from(signals@, source))),
            None => final(sources)@ == old(sources)@.push(first_attempt(source, status, error, at, count_from(signals@, source))),
        },
{
    let count = signal_count(signals, source);
    let mut i: usize = 0;
    while i < sources.len()
        invariant
            i <= sources@.len(),
            sources@ == old(sources)@,
            count == count_from(signals@, source),
            forall|j: int| 0 <= j < i ==> (#[trigger] sources@[j]).source != source,
        decreases sources.len() - i,
    {
        if sources[i].source == source {
            let v = sources[i];
            let failures = if status == SourceHealthStatus::Healthy {
                0
            } else if v.consecutive_failures == u32::MAX {
                u32::MAX
            } else {
                v.consecutive_failures + 1
            };
            let updated = OperatorSourceView {
                source: v.source,
                status,
                last_success: if status == SourceHealthStatus::Healthy { Some(at) } else { v.last_success },
                last_attempt: Some(at),
                last_error: error,
                consecutive_failures: failures,
                signal_count: count,
            };
            proof {
                let k = first_view_of(old(sources)@, source);
                let o = old(sources)@;
                assert(exists|m: int| 0 <= m < o.len() && (#[trigger] o[m]).source == source) by {
                    assert(o[i as int].source == source);
                }
                assert(exists|m: int| 0 <= m < o.len() && (#[trigger] o[m]).source == source && forall|j: int| 0 <= j < m ==> o[j].source != source) by {
                    assert(o[i as int].source == source);
                }
                let c = k.unwrap();
                assert(0 <= c < o.len() && o[c].source == source && forall|j: int| 0 <= j < c ==> o[j].source != source);
                if c != i as int {
                    if c < i as int {
                        assert(old(sources)@[c].source != source);
                    } else {
                        assert(old(sources)@[i as int].source != source);
                    }
                }
            }
            sources.set(i, updated);
            proof {
                let a = attempted(old(sources)@[i as int], status, error, at, count_from(signals@, source));
                assert(updated == a);
            }
            return;
        }
        i = i + 1;
    }
    let last_success = if status == SourceHealthStatus::Healthy { Some(at) } else { None };
    let failures: u32 = if status == SourceHealthStatus::Healthy { 0 } else { 1 };
    sources.push(OperatorSourceView {
        source,
        status,
        last_success,
        last_attempt: Some(at),
        last_error: error,
        consecutive_failures: failures,
        signal_count: count,
    });
}

/// The phase an execution update leaves a run in: reconciling where its
/// state is unknown or a cancellation is pending, executing otherwise.
pub open spec fn phase_for_execution(state: ExecutionState) -> OperatorRunPhase {
    if state == ExecutionState::Unknown || state == ExecutionState::CancelPending {
        OperatorRunPhase::Reconciling
    } else {
        OperatorRunPhase::Executing
    }
}

pub fn execution_phase(state: ExecutionState) -> (p: OperatorRunPhase)
    ensures
        p == phase_for_execution(state),
{
    match state {
        ExecutionState::Unknown => OperatorRunPhase::Reconciling,
        ExecutionState::CancelPending => OperatorRunPhase::Reconciling,
        _ => OperatorRunPhase::Executing,
    }
}

pub fn environment_label(environment: OperatingMode) -> (s: &'static str)
    ensures
        s@ == (match environment {
            OperatingMode::Simulation => "SIMULATION"@,
            OperatingMode::Demo => "DEMO"@,
            OperatingMode::Live => "LIVE"@,
        }),
{
    match environment {
        OperatingMode::Simulation => "SIMULATION",
        OperatingMode::Demo => "DEMO",
        OperatingMode::Live => "LIVE",
    }
}

pub fn safety_label(state: SafetyState) -> (s: &'static str)
    ensures
        s@ == (match state {
            SafetyState::Normal => "NORMAL"@,
            SafetyState::Safe => "SAFE"@,
            SafetyState::Killed => "KILLED"@,
        }),
{
    match state {
        SafetyState::Normal => "NORMAL",
        SafetyState::Safe => "SAFE",
        SafetyState::Killed => "KILLED",
    }
}

pub fn source_key(source: IntelligenceSource) -> (s: &'static str)
    ensures
        s@ == (match source {
            IntelligenceSource::AtkNews => "atk_news"@,
            IntelligenceSource::Polymarket => "polymarket"@,
            IntelligenceSource::Reddit => "reddit"@,
            IntelligenceSource::MarxFinance => "marx_finance"@,
        }),
{
    match source {
        IntelligenceSource::AtkNews => "atk_news",
        IntelligenceSource::Polymarket => "polymarket",
        IntelligenceSource::Reddit => "reddit",
        IntelligenceSource::MarxFinance => "marx_finance",
    }
}

pub fn source_status_label(status: SourceHealthStatus) -> (s: &'static str)
    ensures
        s@ == (match status {
            SourceHealthStatus::Unknown => "unknown"@,
            SourceHealthStatus::Healthy => "healthy"@,
            SourceHealthStatus::Degraded => "degraded"@,
            SourceHealthStatus::Unavailable => "unavailable"@,
            SourceHealthStatus::Disabled => "disabled"@,
        }),
{
    match status {
        SourceHealthStatus::Unknown => "unknown",
        SourceHealthStatus::Healthy => "healthy",
        SourceHealthStatus::Degraded => "degraded",
        SourceHealthStatus::Unavailable => "unavailable",
        SourceHealthStatus::Disabled => "disabled",
    }
}

pub fn proposal_kind_label(kind: ProposalKind) -> (s: &'static str)
    ensures
        s@ == (match kind {
            ProposalKind::Entry => "entry"@,
            ProposalKind::Add => "add"@,
            ProposalKind::Reduction => "reduction"@,
            ProposalKind::Hold => "hold"@,
        }),
{
    match kind {
        ProposalKind::Entry => "entry",
        ProposalKind::Add => "add",
        ProposalKind::Reduction => "reduction",
        ProposalKind::Hold => "hold",
    }
}

#[derive(Clone, Copy, Debug, PartialEq, Eq, Structural)]
pub enum OperatorError {
    ConfirmationRequired,
    StateUnavailable,
}

impl OperatorError {
    pub fn message(&self) -> (s: &'static str)
        ensures
            s@ == (match *self {
                OperatorError::ConfirmationRequired => "explicit KILL confirmation is required"@,
                OperatorError::StateUnavailable => "operator state lock is unavailable"@,
            }),
    {
        match self {
            OperatorError::ConfirmationRequired => "explicit KILL confirmation is required",
            OperatorError::StateUnavailable => "operator state lock is unavailable",
        }
    }
}

/// The kill switch acts only on the exact confirmation `KILL`.
pub fn kill_confirmation(confirmation: &str) -> (r: Result<(), OperatorError>)
    ensures
        r is Ok <==> confirmation@ == "KILL"@,
        r is Err ==> r == Err::<(), OperatorError>(OperatorError::ConfirmationRequired),
{
    if str_eq(confirmation, "KILL") {
        Ok(())
    } else {
        Err(OperatorError::ConfirmationRequired)
    }
}

/// What an operator request asks for.
#[derive(Clone, Copy, Debug, PartialEq, Eq, Structural)]
pub enum OperatorRoute {
    Dashboard,
    ReadModel,
    Kill,
    NotFound,
}

/// The dashboard at `GET /`, the read model at `GET /api/read-model`, the
/// kill switch at `POST /api/safety/kill`; nothing else.
pub open spec fn route_of(method: Seq<char>, path: Seq<char>) -> OperatorRoute {
    if method == "GET"@ && path == "/"@ {
        OperatorRoute::Dashboard
    } else if method == "GET"@ && path == "/api/read-model"@ {
        OperatorRoute::ReadModel
    } else if method == "POST"@ && path == "/api/safety/kill"@ {
        OperatorRoute::Kill
    } else {
        OperatorRoute::NotFound
    }
}

pub fn route(method: &str, path: &str) -> (r: OperatorRoute)
    ensures
        r == route_of(method@, path@),
{
    if str_eq(method, "GET") && str_eq(path, "/") {
        OperatorRoute::Dashboard
    } else if str_eq(method, "GET") && str_eq(path, "/api/read-model") {
        OperatorRoute::ReadModel
    } else if str_eq(method, "POST") && str_eq(path, "/api/safety/kill") {
        OperatorRoute::Kill
    } else {
        OperatorRoute::NotFound
    }
}

/// An HTTP answer: status, content type and body.
#[derive(Debug)]
pub struct OperatorResponse {
    pub status: u16,
    pub content_type: &'static str,
    pub body: String,
}

impl OperatorResponse {
    pub fn json(status: u16, body: String) -> (r: OperatorResponse)
        ensures
            r.status == status,
            r.content_type@ == "application/json"@,
            r.body@ == body@,
    {
        OperatorResponse { status, content_type: "application/json", body }
    }

    pub fn html(status: u16, body: String) -> (r: OperatorResponse)
        ensures
            r.status == status,
            r.content_type@ == "text/html; charset=utf-8"@,
            r.body@ == body@,
    {
        OperatorResponse { status, content_type: "text/html; charset=utf-8", body }
    }
}

} // verus!
