//! One decision cycle: rank attention, plan bounded research, gather it,
//! ask the agent, and keep only proposed intents that pass every check.
//! The cycle never approves capital and never submits an order.

use vstd::prelude::*;

use super::ranking::{prioritized_research_candidates, rank_context, ranks_universe, scores_in_unit, RankedOpportunityContext};
use crate::domain::universe::no_duplicates;
use super::{DecisionContext, DecisionError, PriorDecision, ResearchBudget, ResearchRequest, ResearchResult};
use crate::domain::decisions::{TradeAction, TradeDecision};
use crate::domain::evidence::SourceKind;
use crate::domain::instrument::Instrument;
use crate::domain::positions::PositionState;
use crate::domain::decisions::decision_position_check;
use crate::domain::error::domain_error_text;
use crate::domain::universe::symbols;
use crate::hermes::{hermes_error_text, validated_as, HermesError, RawHermesDecision, ValidatedAgentDecision};
use crate::ids::DecisionId;
use crate::intelligence::evidence::{IntelligenceEvidence, IntelligenceSource};
use crate::intelligence::health::SourceErrorCategory;
use crate::intelligence::service::{has_source, source_active, switched, IntelligenceService};
use crate::intelligence::sources::{IntelligenceSourceAdapter, SourceError};
use crate::text::{concat, is_blank, str_eq, str_is_blank};
use crate::timestamp::Timestamp;

verus! {

/// What the research planner sees.
#[derive(Debug)]
pub struct ResearchPlanningContext {
    pub context: DecisionContext,
    pub ranked_opportunities: Vec<RankedOpportunityContext>,
    pub budget: ResearchBudget,
}

/// What the agent is asked to decide on.
#[derive(Debug)]
pub struct AgentDecisionRequest {
    pub context: DecisionContext,
    pub ranked_opportunities: Vec<RankedOpportunityContext>,
    pub research_requests: Vec<ResearchRequest>,
    pub research_errors: Vec<SourceError>,
    pub budget: ResearchBudget,
}

/// Plans targeted research; a failure is given by its description.
pub trait ResearchSourcePlanner {
    fn plan(&mut self, context: &ResearchPlanningContext) -> Result<Vec<ResearchRequest>, String>;
}

/// Runs one research request.
pub trait ResearchProvider {
    fn research(&mut self, request: &ResearchRequest) -> Result<ResearchResult, SourceError>;
}

/// The agent: for each decision it returns, the raw decision its payload
/// decoded to, or why the payload could not be decoded. A failed request
/// is given by its description.
pub trait DecisionProvider {
    fn decide(&mut self, request: &AgentDecisionRequest) -> Result<Vec<Result<RawHermesDecision, HermesError>>, String>;
}

/// Hears of the cycle's progress; a failure, given by its message, ends
/// the cycle.
pub trait DecisionObserver {
    fn on_research_planned(&mut self, requests: &Vec<ResearchRequest>, at: Timestamp) -> Result<(), String> {
        Ok(())
    }

    fn on_source_completed(&mut self, source: IntelligenceSource, evidence: &Vec<IntelligenceEvidence>, at: Timestamp) -> Result<(), String> {
        Ok(())
    }

    fn on_source_failed(&mut self, error: &SourceError, at: Timestamp) -> Result<(), String> {
        Ok(())
    }

    fn on_agent_decision_requested(&mut self, at: Timestamp) -> Result<(), String> {
        Ok(())
    }
}

/// An observer that hears nothing.
pub struct NoopDecisionObserver;

impl DecisionObserver for NoopDecisionObserver {
}

impl<A: IntelligenceSourceAdapter> ResearchProvider for IntelligenceService<A> {
    /// Collects from the request's source alone. A collection that fails,
    /// a source that is switched off, or an error that the source reported
    /// is the request's failure; otherwise the source's observations are
    /// the result.
    fn research(&mut self, request: &ResearchRequest) -> (r: Result<ResearchResult, SourceError>) {
        let snapshot = match self.collect_source(request.source, &request.query) {
            Ok(s) => s,
            Err(_) => {
                return Err(SourceError::new(request.source, SourceErrorCategory::MalformedResponse));
            },
        };
        let disabled = snapshot.disabled_sources();
        let mut i: usize = 0;
        while i < disabled.len()
            decreases disabled.len() - i,
        {
            if disabled[i] == request.source {
                return Err(SourceError::new(request.source, SourceErrorCategory::Disabled));
            }
            i = i + 1;
        }
        let errors = snapshot.source_errors();
        let mut j: usize = 0;
        while j < errors.len()
            decreases errors.len() - j,
        {
            if errors[j].source() == request.source {
                return Err(errors[j]);
            }
            j = j + 1;
        }
        let observations = snapshot.observations();
        let mut evidence: Vec<IntelligenceEvidence> = Vec::new();
        let mut k: usize = 0;
        while k < observations.len()
            decreases observations.len() - k,
        {
            if observations[k].source == request.source {
                evidence.push(observations[k].clone());
            }
            k = k + 1;
        }
        Ok(ResearchResult::new(request.source, evidence))
    }
}

#[derive(Clone, Copy, Debug, PartialEq, Eq, Structural)]
pub enum ProposalKind {
    Entry,
    Add,
    Reduction,
    Hold,
}

#[derive(Debug, PartialEq, Eq)]
pub struct DecisionProposal {
    pub decision: ValidatedAgentDecision,
    pub kind: ProposalKind,
}

#[derive(Debug, PartialEq, Eq)]
pub enum DecisionCycleResult {
    Completed {
        ranked_opportunities: Vec<RankedOpportunityContext>,
        proposals: Vec<DecisionProposal>,
        research_requests: Vec<ResearchRequest>,
        research_errors: Vec<SourceError>,
    },
    NoAction {
        reason: String,
        ranked_opportunities: Vec<RankedOpportunityContext>,
        research_requests: Vec<ResearchRequest>,
        research_errors: Vec<SourceError>,
    },
}

impl DecisionCycleResult {
    pub fn ranked_opportunities(&self) -> (v: &Vec<RankedOpportunityContext>)
        ensures
            match self {
                DecisionCycleResult::Completed { ranked_opportunities, .. } => *v == *ranked_opportunities,
                DecisionCycleResult::NoAction { ranked_opportunities, .. } => *v == *ranked_opportunities,
            },
    {
        match self {
            DecisionCycleResult::Completed { ranked_opportunities, .. } => ranked_opportunities,
            DecisionCycleResult::NoAction { ranked_opportunities, .. } => ranked_opportunities,
        }
    }

    /// The proposals of a completed cycle; none otherwise.
    pub fn proposals(&self) -> (v: &[DecisionProposal])
        ensures
            match self {
                DecisionCycleResult::Completed { proposals, .. } => v@ == proposals@,
                DecisionCycleResult::NoAction { .. } => v@.len() == 0,
            },
    {
        match self {
            DecisionCycleResult::Completed { proposals, .. } => proposals.as_slice(),
            DecisionCycleResult::NoAction { .. } => &[],
        }
    }

    pub fn research_requests(&self) -> (v: &Vec<ResearchRequest>)
        ensures
            match self {
                DecisionCycleResult::Completed { research_requests, .. } => *v == *research_requests,
                DecisionCycleResult::NoAction { research_requests, .. } => *v == *research_requests,
            },
    {
        match self {
            DecisionCycleResult::Completed { research_requests, .. } => research_requests,
            DecisionCycleResult::NoAction { research_requests, .. } => research_requests,
        }
    }

    pub fn research_errors(&self) -> (v: &Vec<SourceError>)
        ensures
            match self {
                DecisionCycleResult::Completed { research_errors, .. } => *v == *research_errors,
                DecisionCycleResult::NoAction { research_errors, .. } => *v == *research_errors,
            },
    {
        match self {
            DecisionCycleResult::Completed { research_errors, .. } => research_errors,
            DecisionCycleResult::NoAction { research_errors, .. } => research_errors,
        }
    }

    /// Why no action was taken, for a cycle that took none.
    pub fn no_action_reason(&self) -> (r: Option<&str>)
        ensures
            match self {
                DecisionCycleResult::NoAction { reason, .. } => r matches Some(s) && s@ == reason@,
                DecisionCycleResult::Completed { .. } => r is None,
            },
    {
        match self {
            DecisionCycleResult::NoAction { reason, .. } => Some(reason.as_str()),
            DecisionCycleResult::Completed { .. } => None,
        }
    }
}

/// A cycle that ends without action, and why.
pub fn no_action(
    reason: String,
    ranked_opportunities: Vec<RankedOpportunityContext>,
    research_requests: Vec<ResearchRequest>,
    research_errors: Vec<SourceError>,
) -> (r: DecisionCycleResult)
    ensures
        r == (DecisionCycleResult::NoAction { reason, ranked_opportunities, research_requests, research_errors }),
{
    DecisionCycleResult::NoAction { reason, ranked_opportunities, research_requests, research_errors }
}

/// The kind of a proposal: a buy adds to an open position or enters, a
/// sell reduces, a hold holds.
pub open spec fn kind_of(action: TradeAction, open: bool) -> ProposalKind {
    match action {
        TradeAction::Buy => if open {
            ProposalKind::Add
        } else {
            ProposalKind::Entry
        },
        TradeAction::Sell => ProposalKind::Reduction,
        TradeAction::Hold => ProposalKind::Hold,
    }
}

pub fn proposal_kind(decision: &TradeDecision, position: Option<&PositionState>) -> (k: ProposalKind)
    ensures
        k == kind_of(
            decision.action,
            match position {
                Some(p) => p.spec_is_open(),
                None => false,
            },
        ),
{
    match decision.action {
        TradeAction::Buy => {
            let open = match position {
                Some(p) => p.is_open(),
                None => false,
            };
            if open {
                ProposalKind::Add
            } else {
                ProposalKind::Entry
            }
        },
        TradeAction::Sell => ProposalKind::Reduction,
        TradeAction::Hold => ProposalKind::Hold,
    }
}

/// A research request within its explicit budget: a rationale, result caps
/// within the budget, and a query that targets the request's instrument.
pub open spec fn request_in_budget(r: ResearchRequest, b: ResearchBudget) -> bool {
    &&& !is_blank(r.rationale@)
    &&& r.query.spec_max_results() <= b.max_results_per_query
    &&& r.query.spec_max_per_source() <= b.max_results_per_source
    &&& r.query.spec_instruments().len() > 0
    &&& r.query.spec_instruments().contains(r.instrument@)
}

/// Accepted research: within the call budget, inside the universe, each
/// request within its budget, and no source asked twice about one
/// instrument.
pub open spec fn requests_ok(v: Seq<ResearchRequest>, b: ResearchBudget, u: Seq<Seq<char>>) -> bool {
    &&& v.len() <= b.max_source_calls
    &&& forall|i: int| 0 <= i < v.len() ==> u.contains((#[trigger] v[i]).instrument@) && request_in_budget(v[i], b)
    &&& forall|i: int, j: int| 0 <= i < j < v.len() ==> !((#[trigger] v[i]).source == (#[trigger] v[j]).source
        && v[i].instrument@ == v[j].instrument@)
}

/// Screens the planned requests in order: once the call budget is used, a
/// request outside the universe or beyond its budget ends the screening
/// with the reason; a repeat of a source and instrument is dropped.
fn screen_requests(planned: Vec<ResearchRequest>, context: &DecisionContext, budget: &ResearchBudget) -> (r: (Vec<ResearchRequest>, Option<String>))
    ensures
        requests_ok(r.0@, *budget, context.universe@),
        r.1 matches Some(m) ==> screening_refusal(m@),
{
    let mut requests: Vec<ResearchRequest> = Vec::new();
    let mut rest = planned;
    while rest.len() > 0
        invariant
            requests_ok(requests@, *budget, context.universe@),
        decreases rest.len(),
    {
        let request = rest.remove(0);
        if requests.len() >= budget.max_source_calls {
            let m = String::from_str("research budget exhausted before source calls");
            proof {
                reveal_strlit("research budget exhausted before source calls");
            }
            return (requests, Some(m));
        }
        if !context.universe.contains(&request.instrument) {
            let symbol = request.instrument.to_symbol_string();
            let m = concat("research requested outside configured universe: ", symbol.as_str());
            proof {
                assert("research requested outside configured universe: "@.is_prefix_of(m@));
            }
            return (requests, Some(m));
        }
        if str_is_blank(request.rationale.as_str()) || request.query.max_results() > budget.max_results_per_query
            || request.query.max_per_source() > budget.max_results_per_source || !request.query.targets_instrument(
            &request.instrument,
        ) {
            let m = String::from_str("research request exceeds its explicit budget");
            proof {
                reveal_strlit("research request exceeds its explicit budget");
            }
            return (requests, Some(m));
        }
        let mut repeat = false;
        let mut i: usize = 0;
        while i < requests.len()
            invariant
                i <= requests@.len(),
                !repeat ==> forall|k: int| 0 <= k < i ==> !((#[trigger] requests@[k]).source == request.source
                    && requests@[k].instrument@ == request.instrument@),
            decreases requests.len() - i,
        {
            if requests[i].source == request.source && requests[i].instrument.same_as(&request.instrument) {
                repeat = true;
            }
            i = i + 1;
        }
        if !repeat {
            requests.push(request);
        }
    }
    (requests, None)
}

fn known_event(known: &Vec<(IntelligenceSource, String)>, source: IntelligenceSource, id: &str) -> (b: bool)
    ensures
        b == exists|k: int| 0 <= k < known@.len() && (#[trigger] known@[k]).0 == source && known@[k].1@ == id@,
{
    let mut k: usize = 0;
    while k < known.len()
        invariant
            k <= known@.len(),
            forall|m: int| 0 <= m < k ==> !((#[trigger] known@[m]).0 == source && known@[m].1@ == id@),
        decreases known.len() - k,
    {
        if known[k].0 == source && str_eq(known[k].1.as_str(), id) {
            return true;
        }
        k = k + 1;
    }
    false
}

/// What the research left: the errors of the sources that failed, and the
/// reason to stop where a provider answered for the wrong source.
struct ResearchOutcome {
    errors: Vec<SourceError>,
    stop: Option<String>,
}

/// Runs the accepted requests in order, adding the new, matching, valid
/// evidence about each request's instrument to the context and recording
/// each source's health.
fn run_research<R: ResearchProvider, O: DecisionObserver>(
    researcher: &mut R,
    observer: &mut O,
    requests: &Vec<ResearchRequest>,
    context: &mut DecisionContext,
) -> (r: Result<ResearchOutcome, DecisionError>)
    ensures
        final(context).universe == old(context).universe,
        final(context).positions == old(context).positions,
        final(context).prior_decisions == old(context).prior_decisions,
        final(context).as_of == old(context).as_of,
        r matches Ok(o) ==> o.errors@.len() <= requests@.len(),
        r matches Ok(o) ==> (o.stop matches Some(m) ==> m@ == "research provider returned the wrong source"@),
        r matches Err(e) ==> e is Observer || e is InvalidContext,
{
    let mut known: Vec<(IntelligenceSource, String)> = Vec::new();
    let mut e: usize = 0;
    while e < context.evidence.len()
        invariant
            *context == *old(context),
        decreases context.evidence.len() - e,
    {
        known.push((context.evidence[e].source, String::from_str(context.evidence[e].source_event_id.as_str())));
        e = e + 1;
    }
    let ghost start = *old(context);
    let mut errors: Vec<SourceError> = Vec::new();
    let mut q: usize = 0;
    while q < requests.len()
        invariant
            q <= requests@.len(),
            errors@.len() <= q,
            context.universe == start.universe,
            context.positions == start.positions,
            context.prior_decisions == start.prior_decisions,
            context.as_of == start.as_of,
            start == *old(context),
        decreases requests.len() - q,
    {
        let request = &requests[q];
        match researcher.research(request) {
            Ok(result) => {
                if result.source != request.source {
                    return Ok(ResearchOutcome {
                        errors,
                        stop: Some(wrong_source_reason()),
                    });
                }
                match observer.on_source_completed(result.source, &result.evidence, context.as_of) {
                    Ok(()) => {},
                    Err(message) => {
                        return Err(DecisionError::Observer(message));
                    },
                }
                context.source_health.record_success(result.source, context.as_of);
                let mut rest = result.evidence;
                while rest.len() > 0
                    invariant
                        context.universe == start.universe,
                        context.positions == start.positions,
                        context.prior_decisions == start.prior_decisions,
                        context.as_of == start.as_of,
                        start == *old(context),
                    decreases rest.len(),
                {
                    let evidence = rest.remove(0);
                    match evidence.validate() {
                        Ok(()) => {},
                        Err(error) => {
                            return Err(DecisionError::InvalidContext(error.message()));
                        },
                    }
                    let mut about = false;
                    let mut k: usize = 0;
                    while k < evidence.affected_assets.len()
                        decreases evidence.affected_assets.len() - k,
                    {
                        if evidence.affected_assets[k].instrument.same_as(&request.instrument) {
                            about = true;
                        }
                        k = k + 1;
                    }
                    if request.query.matches(&evidence) && about && !known_event(
                        &known,
                        evidence.source,
                        evidence.source_event_id.as_str(),
                    ) {
                        known.push((evidence.source, String::from_str(evidence.source_event_id.as_str())));
                        context.evidence.push(evidence);
                    }
                }
            },
            Err(error) => {
                match observer.on_source_failed(&error, context.as_of) {
                    Ok(()) => {},
                    Err(message) => {
                        return Err(DecisionError::Observer(message));
                    },
                }
                context.source_health.record_failure(error.source(), context.as_of, error.category());
                errors.push(error);
            },
        }
        q = q + 1;
    }
    Ok(ResearchOutcome { errors, stop: None })
}

/// The decision cites Reddit evidence and nothing else.
pub open spec fn reddit_only(d: TradeDecision) -> bool {
    &&& exists|i: int| 0 <= i < d.evidence_refs@.len() && (#[trigger] d.evidence_refs@[i]).source == SourceKind::Reddit
    &&& !exists|i: int| 0 <= i < d.evidence_refs@.len() && (#[trigger] d.evidence_refs@[i]).source != SourceKind::Reddit
}

/// The number of proposals among the first `n` that are not holds.
pub open spec fn actionable(p: Seq<DecisionProposal>, n: int) -> int
    decreases n,
{
    if n <= 0 || n > p.len() {
        0
    } else {
        actionable(p, n - 1) + if p[n - 1].kind != ProposalKind::Hold {
            1int
        } else {
            0int
        }
    }
}

/// Whether a position is open in the instrument.
pub open spec fn holds_open(ps: Seq<PositionState>, sym: Seq<char>) -> bool {
    match super::position_index(ps, sym, 0) {
        Some(k) => ps[k].spec_is_open(),
        None => false,
    }
}

/// The proposals that may leave a cycle: at least one, within the budget
/// of actionable decisions, one per instrument and decision identifier,
/// no trade on Reddit evidence alone, and each of the kind its action and
/// the position give.
pub open spec fn proposals_ok(p: Seq<DecisionProposal>, b: ResearchBudget, ps: Seq<PositionState>) -> bool {
    &&& p.len() > 0
    &&& actionable(p, p.len() as int) <= b.max_actionable_decisions
    &&& forall|i: int, j: int| 0 <= i < j < p.len() ==> (#[trigger] p[i]).decision.spec_decision().instrument@ != (
    #[trigger] p[j]).decision.spec_decision().instrument@ && p[i].decision.spec_decision().decision_id
        != p[j].decision.spec_decision().decision_id
    &&& forall|i: int| 0 <= i < p.len() ==> !((#[trigger] p[i]).decision.spec_decision().action != TradeAction::Hold
        && reddit_only(p[i].decision.spec_decision()))
    &&& forall|i: int| 0 <= i < p.len() ==> (#[trigger] p[i]).kind == kind_of(
        p[i].decision.spec_decision().action,
        holds_open(ps, p[i].decision.spec_decision().instrument@),
    )
}

fn cites_reddit_only(d: &TradeDecision) -> (b: bool)
    ensures
        b == reddit_only(*d),
{
    let refs = &d.evidence_refs;
    let mut any_reddit = false;
    let mut any_other = false;
    let mut i: usize = 0;
    while i < refs.len()
        invariant
            i <= refs@.len(),
            refs@ == d.evidence_refs@,
            any_reddit == exists|k: int| 0 <= k < i && (#[trigger] refs@[k]).source == SourceKind::Reddit,
            any_other == exists|k: int| 0 <= k < i && (#[trigger] refs@[k]).source != SourceKind::Reddit,
        decreases refs.len() - i,
    {
        let is_reddit = match &refs[i].source {
            SourceKind::Reddit => true,
            _ => false,
        };
        if is_reddit {
            any_reddit = true;
        } else {
            any_other = true;
        }
        i = i + 1;
    }
    any_reddit && !any_other
}

/// `m` is the message of the Hermes refusal `e`: its text, or for a payload
/// that did not parse, the parser's description after it.
pub open spec fn hermes_message(e: HermesError, m: Seq<char>) -> bool {
    if e is MalformedPayload {
        hermes_error_text(e).is_prefix_of(m)
    } else {
        m == hermes_error_text(e)
    }
}

/// The prior decision is repeated by `d`: same instrument and action on the
/// same set of evidence.
pub open spec fn prior_repeated(p: PriorDecision, d: TradeDecision) -> bool {
    p.instrument@ == d.instrument@ && p.action == d.action && super::id_set(p.evidence_ids@) == super::cited_ids(d)
}

pub open spec fn repeats_prior(priors: Seq<PriorDecision>, d: TradeDecision) -> bool {
    exists|i: int| 0 <= i < priors.len() && prior_repeated(#[trigger] priors[i], d)
}

/// Why a validated decision stops the cycle, in check order: an actionable
/// decision when every source failed, an instrument or identifier seen
/// before, a conflict with the known position, or Reddit evidence alone
/// behind an actionable decision.
pub open spec fn proposal_refusal(
    d: TradeDecision,
    ps: Seq<PositionState>,
    unavailable: bool,
    seen_syms: Seq<Seq<char>>,
    seen_ids: Seq<DecisionId>,
) -> Option<Seq<char>> {
    if unavailable && d.action != TradeAction::Hold {
        Some("all selected intelligence sources are unavailable"@)
    } else if seen_syms.contains(d.instrument@) || seen_ids.contains(d.decision_id) {
        Some("Hermes returned duplicate decision identity"@)
    } else {
        let conflict = match super::position_index(ps, d.instrument@, 0) {
            Some(k) => match decision_position_check(d, ps[k]) {
                Err(e) => Some("decision conflicts with known position: "@ + domain_error_text(e)),
                Ok(()) => None,
            },
            None => None,
        };
        if conflict is Some {
            conflict
        } else if d.action != TradeAction::Hold && reddit_only(d) {
            Some("Reddit evidence requires non-Reddit corroboration"@)
        } else {
            None
        }
    }
}

/// What the proposals come to once every answer was taken: refused over the
/// actionable budget or when none is left, else the proposals.
pub open spec fn proposals_closed(acc: Seq<DecisionProposal>, b: ResearchBudget, r: Result<Vec<DecisionProposal>, String>) -> bool {
    if actionable(acc, acc.len() as int) > b.max_actionable_decisions {
        r matches Err(m) && m@ == "actionable decision budget exceeded"@
    } else if acc.len() == 0 {
        r matches Err(m) && m@ == "unchanged decision already processed or no valid proposal remained"@
    } else {
        r matches Ok(p) && p@ == acc
    }
}

/// The agent's answers from the `i`-th on, taken in order after the
/// instruments `seen_syms` and identifiers `seen_ids` were seen and the
/// proposals `acc` were made: the first refusal stops the walk with its
/// reason; a decision that repeats a prior one is passed over; any other
/// becomes a proposal of the kind its action and position give.
pub open spec fn proposals_walk(
    answers: Seq<Result<RawHermesDecision, HermesError>>,
    ctx: DecisionContext,
    b: ResearchBudget,
    unavailable: bool,
    i: int,
    seen_syms: Seq<Seq<char>>,
    seen_ids: Seq<DecisionId>,
    acc: Seq<DecisionProposal>,
    r: Result<Vec<DecisionProposal>, String>,
) -> bool
    decreases answers.len() - i,
{
    if i < 0 || i >= answers.len() {
        proposals_closed(acc, b, r)
    } else {
        let ps = ctx.positions.spec_positions();
        match answers[i] {
            Err(e) => r matches Err(m) && exists|x: Seq<char>|
                #[trigger] hermes_message(e, x) && m@ == "invalid Hermes decision: "@ + x,
            Ok(raw) => {
                ||| (r matches Err(m) && exists|e: HermesError, x: Seq<char>|
                    #[trigger] validated_as(raw, ctx.universe@, Err(e)) && #[trigger] hermes_message(e, x) && m@
                        == "invalid Hermes decision: "@ + x)
                ||| exists|v: ValidatedAgentDecision|
                    #[trigger] validated_as(raw, ctx.universe@, Ok(v)) && {
                        let d = v.spec_decision();
                        match proposal_refusal(d, ps, unavailable, seen_syms, seen_ids) {
                            Some(m) => r matches Err(x) && x@ == m,
                            None => if repeats_prior(ctx.prior_decisions@, d) {
                                proposals_walk(answers, ctx, b, unavailable, i + 1, seen_syms.push(d.instrument@), seen_ids.push(d.decision_id), acc, r)
                            } else {
                                proposals_walk(
                                    answers,
                                    ctx,
                                    b,
                                    unavailable,
                                    i + 1,
                                    seen_syms.push(d.instrument@),
                                    seen_ids.push(d.decision_id),
                                    acc.push(DecisionProposal { decision: v, kind: kind_of(d.action, holds_open(ps, d.instrument@)) }),
                                    r,
                                )
                            },
                        }
                    }
            },
        }
    }
}

fn already_processed(priors: &Vec<PriorDecision>, decision: &ValidatedAgentDecision) -> (b: bool)
    ensures
        b == repeats_prior(priors@, decision.spec_decision()),
{
    let mut i: usize = 0;
    while i < priors.len()
        invariant
            i <= priors@.len(),
            forall|k: int| 0 <= k < i ==> !prior_repeated(#[trigger] priors@[k], decision.spec_decision()),
        decreases priors.len() - i,
    {
        if priors[i].matches(decision) {
            return true;
        }
        i = i + 1;
    }
    false
}

fn seen_identity(instruments: &Vec<Instrument>, ids: &Vec<DecisionId>, instrument: &Instrument, id: DecisionId) -> (b: bool)
    requires
        instruments@.len() == ids@.len(),
    ensures
        !b ==> forall|m: int| 0 <= m < instruments@.len() ==> (#[trigger] instruments@[m])@ != instrument@,
        !b ==> forall|m: int| 0 <= m < ids@.len() ==> (#[trigger] ids@[m]) != id,
        b ==> symbols(instruments@).contains(instrument@) || ids@.contains(id),
{
    let mut k: usize = 0;
    while k < instruments.len()
        invariant
            k <= instruments@.len(),
            instruments@.len() == ids@.len(),
            forall|m: int| 0 <= m < k ==> (#[trigger] instruments@[m])@ != instrument@,
            forall|m: int| 0 <= m < k ==> (#[trigger] ids@[m]).0 != id.0,
        decreases instruments.len() - k,
    {
        if instruments[k].same_as(instrument) {
            proof {
                assert(symbols(instruments@)[k as int] == instrument@);
            }
            return true;
        }
        if ids[k].0 == id.0 {
            proof {
                assert(ids@[k as int] == id);
            }
            return true;
        }
        k = k + 1;
    }
    false
}

/// Turns the agent's answers into proposals, or gives the reason the cycle
/// takes no action.
fn propose(
    answers: Vec<Result<RawHermesDecision, HermesError>>,
    context: &DecisionContext,
    budget: &ResearchBudget,
    all_sources_unavailable: bool,
) -> (r: Result<Vec<DecisionProposal>, String>)
    ensures
        proposals_walk(answers@, *context, *budget, all_sources_unavailable, 0, seq![], seq![], seq![], r),
        r matches Ok(p) ==> proposals_ok(p@, *budget, context.positions.spec_positions()),
{
    let ghost all = answers@;
    let ghost ctx = *context;
    let ghost b = *budget;
    let ghost unav = all_sources_unavailable;
    let ghost ps = context.positions.spec_positions();
    let ghost mut n: int = 0;
    let mut proposals: Vec<DecisionProposal> = Vec::new();
    let mut seen_instruments: Vec<Instrument> = Vec::new();
    let mut seen_ids: Vec<DecisionId> = Vec::new();
    let ghost mut where_seen: Seq<int> = Seq::empty();
    let mut rest = answers;
    proof {
        assert(symbols(seen_instruments@) =~= seq![]);
        assert(rest@ =~= all.subrange(0, all.len() as int));
    }
    while rest.len() > 0
        invariant
            all == answers@,
            ctx == *context,
            b == *budget,
            unav == all_sources_unavailable,
            ps == context.positions.spec_positions(),
            0 <= n <= all.len(),
            rest@ == all.subrange(n, all.len() as int),
            forall|r: Result<Vec<DecisionProposal>, String>|
                proposals_walk(all, ctx, b, unav, n, symbols(seen_instruments@), seen_ids@, proposals@, r)
                    ==> #[trigger] proposals_walk(all, ctx, b, unav, 0, seq![], seq![], seq![], r),
            seen_instruments@.len() == seen_ids@.len(),
            where_seen.len() == proposals@.len(),
            forall|i: int| 0 <= i < proposals@.len() ==> 0 <= #[trigger] where_seen[i] < seen_instruments@.len()
                && proposals@[i].decision.spec_decision().instrument@ == seen_instruments@[where_seen[i]]@
                && proposals@[i].decision.spec_decision().decision_id == seen_ids@[where_seen[i]],
            forall|i: int, j: int| 0 <= i < j < proposals@.len() ==> (#[trigger] proposals@[i]).decision.spec_decision().instrument@ != (
            #[trigger] proposals@[j]).decision.spec_decision().instrument@ && proposals@[i].decision.spec_decision().decision_id
                != proposals@[j].decision.spec_decision().decision_id,
            forall|i: int| 0 <= i < proposals@.len() ==> !((#[trigger] proposals@[i]).decision.spec_decision().action != TradeAction::Hold
                && reddit_only(proposals@[i].decision.spec_decision())),
            forall|i: int| 0 <= i < proposals@.len() ==> (#[trigger] proposals@[i]).kind == kind_of(
                proposals@[i].decision.spec_decision().action,
                holds_open(context.positions.spec_positions(), proposals@[i].decision.spec_decision().instrument@),
            ),
        decreases rest.len(),
    {
        let answer = rest.remove(0);
        let ghost ans = answer;
        let ghost syms = symbols(seen_instruments@);
        let ghost ids = seen_ids@;
        let ghost acc = proposals@;
        proof {
            assert(ans == all[n]);
        }
        let validated = match answer {
            Ok(raw) => match raw.into_validated(&context.universe) {
                Ok(v) => v,
                Err(error) => {
                    let text = error.message();
                    let m = concat("invalid Hermes decision: ", text.as_str());
                    proof {
                        assert(hermes_message(error, text@));
                        assert(proposals_walk(all, ctx, b, unav, n, syms, ids, acc, Err(m)));
                    }
                    return Err(m);
                },
            },
            Err(error) => {
                let text = error.message();
                let m = concat("invalid Hermes decision: ", text.as_str());
                proof {
                    assert(hermes_message(error, text@));
                    assert(proposals_walk(all, ctx, b, unav, n, syms, ids, acc, Err(m)));
                }
                return Err(m);
            },
        };
        let decision = validated.decision();
        let ghost d = validated.spec_decision();
        proof {
            assert(ans matches Ok(raw) && validated_as(raw, ctx.universe@, Ok(validated)));
        }
        if all_sources_unavailable && decision.action != TradeAction::Hold {
            let m = String::from_str("all selected intelligence sources are unavailable");
            proof {
                reveal_strlit("all selected intelligence sources are unavailable");
                assert(proposal_refusal(d, ps, unav, syms, ids) == Some(m@));
                assert(proposals_walk(all, ctx, b, unav, n, syms, ids, acc, Err(m)));
            }
            return Err(m);
        }
        let instrument = &decision.instrument;
        let decision_id = decision.decision_id;
        let duplicate = seen_identity(&seen_instruments, &seen_ids, instrument, decision_id);
        if duplicate {
            let m = String::from_str("Hermes returned duplicate decision identity");
            proof {
                reveal_strlit("Hermes returned duplicate decision identity");
                assert(proposal_refusal(d, ps, unav, syms, ids) == Some(m@));
                assert(proposals_walk(all, ctx, b, unav, n, syms, ids, acc, Err(m)));
            }
            return Err(m);
        }
        proof {
            assert(!syms.contains(d.instrument@)) by {
                if syms.contains(d.instrument@) {
                    let m = choose|m: int| 0 <= m < syms.len() && syms[m] == d.instrument@;
                    assert(seen_instruments@[m]@ == syms[m]);
                }
            }
            assert(!ids.contains(d.decision_id));
        }
        let ghost seen_before = seen_instruments@;
        let ghost ids_before = seen_ids@;
        seen_instruments.push(instrument.clone());
        seen_ids.push(decision_id);
        proof {
            assert(symbols(seen_instruments@) =~= syms.push(d.instrument@));
            assert forall|i: int| 0 <= i < proposals@.len() implies 0 <= #[trigger] where_seen[i] < seen_instruments@.len()
                && proposals@[i].decision.spec_decision().instrument@ == seen_instruments@[where_seen[i]]@
                && proposals@[i].decision.spec_decision().decision_id == seen_ids@[where_seen[i]] by {
                assert(seen_instruments@[where_seen[i]] == seen_before[where_seen[i]]);
                assert(seen_ids@[where_seen[i]] == ids_before[where_seen[i]]);
            }
        }
        let position = context.positions.for_instrument(instrument);
        match position {
            Some(p) => match decision.validate_for_position(p) {
                Ok(()) => {},
                Err(error) => {
                    let text = error.message();
                    let m = concat("decision conflicts with known position: ", text.as_str());
                    proof {
                        assert(proposal_refusal(d, ps, unav, syms, ids) == Some(m@));
                        assert(proposals_walk(all, ctx, b, unav, n, syms, ids, acc, Err(m)));
                    }
                    return Err(m);
                },
            },
            None => {},
        }
        if decision.action != TradeAction::Hold && cites_reddit_only(decision) {
            let m = String::from_str("Reddit evidence requires non-Reddit corroboration");
            proof {
                reveal_strlit("Reddit evidence requires non-Reddit corroboration");
                assert(proposal_refusal(d, ps, unav, syms, ids) == Some(m@));
                assert(proposals_walk(all, ctx, b, unav, n, syms, ids, acc, Err(m)));
            }
            return Err(m);
        }
        proof {
            assert(proposal_refusal(d, ps, unav, syms, ids) is None);
        }
        if already_processed(&context.prior_decisions, &validated) {
            proof {
                assert forall|r: Result<Vec<DecisionProposal>, String>|
                    proposals_walk(all, ctx, b, unav, n + 1, symbols(seen_instruments@), seen_ids@, proposals@, r)
                        implies #[trigger] proposals_walk(all, ctx, b, unav, 0, seq![], seq![], seq![], r) by {
                    assert(proposals_walk(all, ctx, b, unav, n, syms, ids, acc, r));
                }
                n = n + 1;
            }
            continue;
        }
        let kind = proposal_kind(decision, position);
        let ghost before = proposals@;
        proposals.push(DecisionProposal { decision: validated, kind });
        proof {
            let nn = proposals@.len() - 1;
            let slot = seen_instruments@.len() - 1;
            where_seen = where_seen.push(slot);
            let sym = proposals@[nn].decision.spec_decision().instrument@;
            assert(holds_open(context.positions.spec_positions(), sym) == match position {
                Some(p) => p.spec_is_open(),
                None => false,
            });
            assert(proposals@ == acc.push(DecisionProposal { decision: validated, kind: kind_of(d.action, holds_open(ps, d.instrument@)) }));
            assert forall|i: int, j: int| 0 <= i < j < proposals@.len() implies (#[trigger] proposals@[i]).decision.spec_decision().instrument@ != (
            #[trigger] proposals@[j]).decision.spec_decision().instrument@ && proposals@[i].decision.spec_decision().decision_id
                != proposals@[j].decision.spec_decision().decision_id by {
                if j == nn {
                    assert(before[i] == proposals@[i]);
                    assert(where_seen[i] < seen_before.len());
                    assert(seen_before[where_seen[i]]@ != instrument@);
                }
            }
            assert forall|r: Result<Vec<DecisionProposal>, String>|
                proposals_walk(all, ctx, b, unav, n + 1, symbols(seen_instruments@), seen_ids@, proposals@, r)
                    implies #[trigger] proposals_walk(all, ctx, b, unav, 0, seq![], seq![], seq![], r) by {
                assert(proposals_walk(all, ctx, b, unav, n, syms, ids, acc, r));
            }
            n = n + 1;
        }
    }
    let ghost acc = proposals@;
    proof {
        assert(n == all.len());
    }
    let mut count: usize = 0;
    let mut i: usize = 0;
    while i < proposals.len()
        invariant
            i <= proposals@.len(),
            count == actionable(proposals@, i as int),
            count <= i,
        decreases proposals.len() - i,
    {
        if proposals[i].kind != ProposalKind::Hold {
            count = count + 1;
        }
        i = i + 1;
    }
    if count > budget.max_actionable_decisions {
        let m = String::from_str("actionable decision budget exceeded");
        proof {
            reveal_strlit("actionable decision budget exceeded");
            assert(proposals_walk(all, ctx, b, unav, n, symbols(seen_instruments@), seen_ids@, acc, Err(m)));
        }
        return Err(m);
    }
    if proposals.len() == 0 {
        let m = String::from_str("unchanged decision already processed or no valid proposal remained");
        proof {
            reveal_strlit("unchanged decision already processed or no valid proposal remained");
            assert(proposals_walk(all, ctx, b, unav, n, symbols(seen_instruments@), seen_ids@, acc, Err(m)));
        }
        return Err(m);
    }
    proof {
        assert(proposals_walk(all, ctx, b, unav, n, symbols(seen_instruments@), seen_ids@, acc, Ok(proposals)));
    }
    Ok(proposals)
}

pub struct DecisionOrchestrator<P, R, D> {
    planner: P,
    researcher: R,
    decision_provider: D,
    budget: ResearchBudget,
}

impl<P, A: IntelligenceSourceAdapter, D> DecisionOrchestrator<P, IntelligenceService<A>, D> {
    /// Switches the researcher's Polymarket adapters on; says whether it has
    /// one. Nothing else changes.
    pub fn enable_polymarket(&mut self) -> (found: bool)
        ensures
            found == has_source(old(self).spec_researcher().spec_adapters(), IntelligenceSource::Polymarket),
            switched(
                old(self).spec_researcher().spec_adapters(),
                final(self).spec_researcher().spec_adapters(),
                IntelligenceSource::Polymarket,
                true,
            ),
            final(self).spec_researcher().spec_ledger() == old(self).spec_researcher().spec_ledger(),
            final(self).spec_researcher().spec_health() == old(self).spec_researcher().spec_health(),
            final(self).spec_budget() == old(self).spec_budget(),
            final(self).spec_planner() == old(self).spec_planner(),
            final(self).spec_decision_provider() == old(self).spec_decision_provider(),
    {
        self.researcher.enable_polymarket()
    }

    /// Switches the researcher's Polymarket adapters off; says whether it
    /// has one. Nothing else changes.
    pub fn disable_polymarket(&mut self) -> (found: bool)
        ensures
            found == has_source(old(self).spec_researcher().spec_adapters(), IntelligenceSource::Polymarket),
            switched(
                old(self).spec_researcher().spec_adapters(),
                final(self).spec_researcher().spec_adapters(),
                IntelligenceSource::Polymarket,
                false,
            ),
            final(self).spec_researcher().spec_ledger() == old(self).spec_researcher().spec_ledger(),
            final(self).spec_researcher().spec_health() == old(self).spec_researcher().spec_health(),
            final(self).spec_budget() == old(self).spec_budget(),
            final(self).spec_planner() == old(self).spec_planner(),
            final(self).spec_decision_provider() == old(self).spec_decision_provider(),
    {
        self.researcher.disable_polymarket()
    }

    /// Whether the researcher's first Polymarket adapter takes part in
    /// collection.
    pub fn polymarket_enabled(&self) -> (b: bool)
        ensures
            b == source_active(self.spec_researcher().spec_adapters(), IntelligenceSource::Polymarket, 0),
    {
        self.researcher.is_source_enabled(IntelligenceSource::Polymarket)
    }
}

impl<P, R, D> DecisionOrchestrator<P, R, D> {
    pub closed spec fn spec_budget(&self) -> ResearchBudget {
        self.budget
    }

    pub closed spec fn spec_planner(&self) -> P {
        self.planner
    }

    pub closed spec fn spec_researcher(&self) -> R {
        self.researcher
    }

    pub closed spec fn spec_decision_provider(&self) -> D {
        self.decision_provider
    }

    pub fn new(planner: P, researcher: R, decision_provider: D, budget: ResearchBudget) -> (o: DecisionOrchestrator<P, R, D>)
        ensures
            o.spec_budget() == budget,
            o.spec_planner() == planner,
            o.spec_researcher() == researcher,
            o.spec_decision_provider() == decision_provider,
    {
        DecisionOrchestrator { planner, researcher, decision_provider, budget }
    }

    pub fn with_budget(self, budget: ResearchBudget) -> (o: DecisionOrchestrator<P, R, D>)
        ensures
            o.spec_budget() == budget,
            o.spec_planner() == self.spec_planner(),
            o.spec_researcher() == self.spec_researcher(),
            o.spec_decision_provider() == self.spec_decision_provider(),
    {
        DecisionOrchestrator { budget, ..self }
    }

    pub fn budget(&self) -> (b: &ResearchBudget)
        ensures
            *b == self.spec_budget(),
    {
        &self.budget
    }
}

/// What may leave a cycle: a completed cycle's proposals pass every check,
/// and any cycle's research stayed within its budget.
pub open spec fn cycle_ok(r: DecisionCycleResult, b: ResearchBudget, u: Seq<Seq<char>>, ps: Seq<PositionState>) -> bool {
    match r {
        DecisionCycleResult::Completed { proposals, research_requests, research_errors, .. } => {
            &&& proposals_ok(proposals@, b, ps)
            &&& requests_ok(research_requests@, b, u)
            &&& research_errors@.len() <= research_requests@.len()
        },
        DecisionCycleResult::NoAction { research_requests, .. } => requests_ok(research_requests@, b, u),
    }
}

/// Why screening stops a cycle: the call budget spent, a request outside
/// the universe, or a request beyond its budget.
pub open spec fn screening_refusal(m: Seq<char>) -> bool {
    ||| m == "research budget exhausted before source calls"@
    ||| "research requested outside configured universe: "@.is_prefix_of(m)
    ||| m == "research request exceeds its explicit budget"@
}

fn wrong_source_reason() -> (s: String)
    ensures
        s@ == "research provider returned the wrong source"@,
{
    proof {
        reveal_strlit("research provider returned the wrong source");
    }
    String::from_str("research provider returned the wrong source")
}

/// Why a cycle takes no action: planning or the agent's request failed
/// (with the provider's description after the prefix), screening or
/// research stopped it, the agent answered with no decisions or more than
/// the universe holds, or its answers came to no proposals.
pub open spec fn no_action_reason(context: DecisionContext, b: ResearchBudget, m: Seq<char>) -> bool {
    ||| "research planning failed: "@.is_prefix_of(m)
    ||| screening_refusal(m)
    ||| m == "research provider returned the wrong source"@
    ||| "Hermes decision request failed: "@.is_prefix_of(m)
    ||| m == "Hermes returned no decisions or too many decisions"@
    ||| exists|answers: Seq<Result<RawHermesDecision, HermesError>>, researched: DecisionContext, unavailable: bool, x: String|
        #[trigger] proposals_walk(answers, researched, b, unavailable, 0, seq![], seq![], seq![], Err(x)) && x@ == m
            && 0 < answers.len() <= context.universe@.len() && researched.universe == context.universe
            && researched.positions == context.positions && researched.prior_decisions == context.prior_decisions
}

/// What a cycle answers, whatever the planner, researcher, observer and
/// agent say: a context whose ranking is refused is refused so; completed
/// proposals are what the agent's answers, at most one per instrument of
/// the universe, come to after research added its evidence.
pub open spec fn cycle_answer(context: DecisionContext, b: ResearchBudget, r: Result<DecisionCycleResult, DecisionError>) -> bool {
    &&& !(scores_in_unit(context.evidence@, context.universe@) && no_duplicates(context.universe@))
        ==> (r matches Err(e) && e is Ranking)
    &&& r matches Ok(DecisionCycleResult::Completed { proposals, .. }) ==> exists|
        answers: Seq<Result<RawHermesDecision, HermesError>>,
        researched: DecisionContext,
        unavailable: bool,
    |
        #[trigger] proposals_walk(answers, researched, b, unavailable, 0, seq![], seq![], seq![], Ok(proposals))
            && 0 < answers.len() <= context.universe@.len() && researched.universe == context.universe
            && researched.positions == context.positions && researched.prior_decisions == context.prior_decisions
    &&& r matches Ok(DecisionCycleResult::NoAction { reason, .. }) ==> no_action_reason(context, b, reason@)
}

impl<P: ResearchSourcePlanner, R: ResearchProvider, D: DecisionProvider> DecisionOrchestrator<P, R, D> {
    pub fn run(&mut self, context: DecisionContext) -> (r: Result<DecisionCycleResult, DecisionError>)
        requires
            context.universe@.len() < u32::MAX,
        ensures
            r matches Ok(c) ==> cycle_ok(c, old(self).spec_budget(), context.universe@, context.positions.spec_positions()),
            r matches Err(e) ==> e is Ranking || e is InvalidContext || e is Observer,
    {
        let mut observer = NoopDecisionObserver;
        self.run_with_observer(context, &mut observer)
    }

    /// One decision cycle, heard by the observer.
    pub fn run_with_observer<O: DecisionObserver>(&mut self, context: DecisionContext, observer: &mut O) -> (r: Result<
        DecisionCycleResult,
        DecisionError,
    >)
        requires
            context.universe@.len() < u32::MAX,
        ensures
            final(self).spec_budget() == old(self).spec_budget(),
            r matches Ok(c) ==> cycle_ok(c, old(self).spec_budget(), context.universe@, context.positions.spec_positions()),
            r matches Err(e) ==> e is Ranking || e is InvalidContext || e is Observer,
            cycle_answer(context, old(self).spec_budget(), r),
    {
        let ghost given = context;
        let ghost universe = context.universe@;
        let ghost positions = context.positions.spec_positions();
        let budget = self.budget;
        let initial_ranked = match rank_context(&context) {
            Ok(v) => v,
            Err(e) => {
                return Err(e);
            },
        };
        let candidates = prioritized_research_candidates(&context, &initial_ranked, budget.max_deep_research_candidates);
        let planning = ResearchPlanningContext { context, ranked_opportunities: candidates, budget };
        let planned = self.planner.plan(&planning);
        let ResearchPlanningContext { context, .. } = planning;
        let planned = match planned {
            Ok(requests) => requests,
            Err(description) => {
                return Ok(no_action(concat("research planning failed: ", description.as_str()), initial_ranked, Vec::new(), Vec::new()));
            },
        };
        let (requests, refused) = screen_requests(planned, &context, &budget);
        match refused {
            Some(reason) => {
                return Ok(no_action(reason, initial_ranked, requests, Vec::new()));
            },
            None => {},
        }
        match observer.on_research_planned(&requests, context.as_of) {
            Ok(()) => {},
            Err(message) => {
                return Err(DecisionError::Observer(message));
            },
        }
        let mut effective = context;
        let outcome = match run_research(&mut self.researcher, observer, &requests, &mut effective) {
            Ok(o) => o,
            Err(e) => {
                return Err(e);
            },
        };
        let research_errors = outcome.errors;
        match outcome.stop {
            Some(reason) => {
                return Ok(no_action(reason, initial_ranked, requests, research_errors));
            },
            None => {},
        }
        let ranked = match rank_context(&effective) {
            Ok(v) => v,
            Err(e) => {
                return Err(e);
            },
        };
        let request = AgentDecisionRequest {
            context: effective,
            ranked_opportunities: ranked,
            research_requests: requests,
            research_errors,
            budget,
        };
        match observer.on_agent_decision_requested(request.context.as_of) {
            Ok(()) => {},
            Err(message) => {
                return Err(DecisionError::Observer(message));
            },
        }
        let answers = self.decision_provider.decide(&request);
        let AgentDecisionRequest { context: effective, ranked_opportunities: ranked, research_requests: requests, research_errors, .. } = request;
        let answers = match answers {
            Ok(a) => a,
            Err(description) => {
                return Ok(no_action(concat("Hermes decision request failed: ", description.as_str()), ranked, requests, research_errors));
            },
        };
        if answers.len() == 0 || answers.len() > effective.universe.instruments().len() {
            return Ok(no_action(String::from_str("Hermes returned no decisions or too many decisions"), ranked, requests, research_errors));
        }
        let all_sources_unavailable = requests.len() > 0 && research_errors.len() == requests.len() && effective.evidence.len() == 0;
        let ghost answered = answers@;
        let proposed = propose(answers, &effective, &budget, all_sources_unavailable);
        proof {
            assert(scores_in_unit(given.evidence@, given.universe@) && no_duplicates(given.universe@));
        }
        let r = match proposed {
            Ok(proposals) => Ok(DecisionCycleResult::Completed {
                ranked_opportunities: ranked,
                proposals,
                research_requests: requests,
                research_errors,
            }),
            Err(reason) => Ok(no_action(reason, ranked, requests, research_errors)),
        };
        proof {
            if r matches Ok(DecisionCycleResult::Completed { .. }) {
                let proposals = r->Ok_0->Completed_proposals;
                assert(proposed == Ok::<Vec<DecisionProposal>, String>(proposals));
                assert(proposals_walk(answered, effective, budget, all_sources_unavailable, 0, seq![], seq![], seq![], Ok(proposals)));
            }
        }
        r
    }
}

} // verus!
