//! The operator's read model: what the dashboard and the agent tools read,
//! and how each recorded event of a run moves it. Every event bumps the
//! revision (saturating) and stamps the model with its time.

use vstd::prelude::*;

use crate::decision::orchestrator::DecisionProposal;
use crate::execution::{ExecutionReceipt, ExecutionState};
use crate::ids::DecisionId;
use crate::intelligence::evidence::{IntelligenceEvidence, IntelligenceSource};
use crate::intelligence::health::SourceErrorCategory;
use crate::operator::{
    count_from, first_view_of, kill_confirmation, phase_for_execution, source_status_for_error, status_for_error,
    update_source_health, attempted, first_attempt, execution_phase, OperatorAgentStatus, OperatorError,
    OperatorOpportunity, OperatorResearchBudget, OperatorResearchError, OperatorResearchRequest, OperatorResearchView,
    OperatorRunPhase, OperatorRunStatus, OperatorSourceView,
};
use crate::risk::{OperatingMode, RiskDecision, SafetyState, SafetyStateStore};
use crate::timestamp::{now_utc, Timestamp};

verus! {

/// The current run as the operator sees it.
#[derive(Debug)]
pub struct OperatorRunView {
    pub run_id: Option<String>,
    pub cycle_id: Option<String>,
    pub status: OperatorRunStatus,
    pub phase: OperatorRunPhase,
    pub started_at: Option<Timestamp>,
    pub updated_at: Option<Timestamp>,
    pub completed_at: Option<Timestamp>,
    pub no_action_reason: Option<String>,
    pub error: Option<String>,
}

/// The agent as the operator sees it.
#[derive(Debug)]
pub struct OperatorAgentView {
    pub status: OperatorAgentStatus,
    pub run_id: Option<String>,
    pub request_id: Option<String>,
    pub emitted_at: Option<Timestamp>,
    pub decision_id: Option<DecisionId>,
    pub last_error: Option<String>,
}

/// Everything the operator view shows.
#[derive(Debug)]
pub struct OperatorReadModel {
    pub environment: OperatingMode,
    pub safety_state: SafetyState,
    pub run: OperatorRunView,
    pub revision: u64,
    pub updated_at: Option<Timestamp>,
    pub agent: OperatorAgentView,
    pub sources: Vec<OperatorSourceView>,
    pub research: OperatorResearchView,
    pub signals: Vec<IntelligenceEvidence>,
    pub opportunities: Vec<OperatorOpportunity>,
    pub latest_proposal: Option<DecisionProposal>,
    pub no_action_reason: Option<String>,
    pub latest_risk_decision: Option<RiskDecision>,
    pub executions: Vec<ExecutionReceipt>,
    pub execution_warning: Option<String>,
}

/// A recorded step of a run.
#[derive(Debug)]
pub enum OperatorEvent {
    RunStarted { run_id: String, cycle_id: String, mode: OperatingMode, safety_state: SafetyState, at: Timestamp },
    ResearchStarted { trigger: String, budget: OperatorResearchBudget, at: Timestamp },
    ResearchPlanned { requests: Vec<OperatorResearchRequest>, at: Timestamp },
    SourceFailed { source: IntelligenceSource, category: SourceErrorCategory, at: Timestamp },
    AgentDecisionRequested { at: Timestamp },
    SafetyUpdated { state: SafetyState, at: Timestamp },
    DecisionCycle {
        requests: Vec<OperatorResearchRequest>,
        errors: Vec<OperatorResearchError>,
        opportunities: Vec<OperatorOpportunity>,
        no_action_reason: Option<String>,
        proposal: Option<DecisionProposal>,
        at: Timestamp,
    },
    RiskEvaluated { risk: RiskDecision, at: Timestamp },
    ExecutionUpdated { receipt: ExecutionReceipt, at: Timestamp },
    ExecutionFailed { error: String, at: Timestamp },
    RunCompleted { at: Timestamp },
    RunFailed { error: String, at: Timestamp },
}

/// The text shown while an execution's state is unknown.
pub open spec fn unknown_execution_warning() -> Seq<char> {
    "Execution state unknown. Reconciliation in progress. No duplicate placement will be attempted."@
}

/// The revision after one more event; it stays at its maximum.
pub open spec fn next_revision(r: u64) -> u64 {
    if r == u64::MAX {
        r
    } else {
        (r + 1) as u64
    }
}

/// The optional text holds exactly `t`.
pub open spec fn holds_text(o: Option<String>, t: Seq<char>) -> bool {
    o matches Some(s) && s@ == t
}

/// The receipts other than those of the execution `id`, in order.
pub open spec fn without_execution(s: Seq<ExecutionReceipt>, id: u128) -> Seq<ExecutionReceipt>
    decreases s.len(),
{
    if s.len() == 0 {
        s
    } else if s.last().execution_id == id {
        without_execution(s.drop_last(), id)
    } else {
        without_execution(s.drop_last(), id).push(s.last())
    }
}

/// The model after a run starts: a fresh run and agent in the given mode and
/// safety state, researching, with every list and latest item cleared.
pub open spec fn run_started(b: OperatorReadModel, a: OperatorReadModel, run_id: String, cycle_id: String, mode: OperatingMode, safety_state: SafetyState, at: Timestamp) -> bool {
    &&& a == (OperatorReadModel {
        environment: mode,
        safety_state,
        run: OperatorRunView {
            run_id: a.run.run_id,
            cycle_id: a.run.cycle_id,
            status: OperatorRunStatus::Running,
            phase: OperatorRunPhase::Researching,
            started_at: Some(at),
            updated_at: Some(at),
            completed_at: None,
            no_action_reason: None,
            error: None,
        },
        revision: next_revision(b.revision),
        updated_at: Some(at),
        agent: OperatorAgentView {
            status: OperatorAgentStatus::Researching,
            run_id: a.agent.run_id,
            request_id: None,
            emitted_at: None,
            decision_id: None,
            last_error: None,
        },
        sources: a.sources,
        research: a.research,
        signals: a.signals,
        opportunities: a.opportunities,
        latest_proposal: None,
        no_action_reason: None,
        latest_risk_decision: None,
        executions: a.executions,
        execution_warning: None,
    })
    &&& holds_text(a.run.run_id, run_id@) && holds_text(a.agent.run_id, run_id@) && holds_text(a.run.cycle_id, cycle_id@)
    &&& a.sources@.len() == 0 && a.signals@.len() == 0 && a.opportunities@.len() == 0 && a.executions@.len() == 0
    &&& a.research.trigger is None && a.research.requests@.len() == 0 && a.research.errors@.len() == 0
    &&& a.research.budget is None && !a.research.truncated
}

/// The model after the cycle's decision step: its research requests and
/// errors and ranked opportunities shown; a no-action reason marks the run
/// and degrades the agent; the first proposal becomes the latest, moves the
/// agent to proposed with the proposal's provenance, and the run to its
/// risk check.
pub open spec fn decision_cycle(
    b: OperatorReadModel,
    a: OperatorReadModel,
    requests: Vec<OperatorResearchRequest>,
    errors: Vec<OperatorResearchError>,
    opportunities: Vec<OperatorOpportunity>,
    reason: Option<String>,
    proposal: Option<DecisionProposal>,
    at: Timestamp,
) -> bool {
    let status = if reason is Some { OperatorRunStatus::NoAction } else { b.run.status };
    let agent_status = match proposal {
        Some(_) => OperatorAgentStatus::Proposed,
        None => if reason is Some { OperatorAgentStatus::Degraded } else { b.agent.status },
    };
    &&& a == (OperatorReadModel {
        run: OperatorRunView {
            status,
            phase: if proposal is Some { OperatorRunPhase::RiskCheck } else { OperatorRunPhase::Deciding },
            updated_at: Some(at),
            no_action_reason: a.run.no_action_reason,
            ..b.run
        },
        revision: next_revision(b.revision),
        updated_at: Some(at),
        agent: OperatorAgentView {
            status: agent_status,
            run_id: a.agent.run_id,
            request_id: a.agent.request_id,
            emitted_at: match proposal {
                Some(p) => Some(p.decision.spec_provenance().emitted_at),
                None => b.agent.emitted_at,
            },
            decision_id: match proposal {
                Some(p) => Some(p.decision.spec_decision().decision_id),
                None => b.agent.decision_id,
            },
            ..b.agent
        },
        research: OperatorResearchView { requests, errors, ..b.research },
        opportunities,
        latest_proposal: if proposal is Some { proposal } else { b.latest_proposal },
        no_action_reason: a.no_action_reason,
        ..b
    })
    &&& match reason {
        Some(r) => holds_text(a.run.no_action_reason, r@) && holds_text(a.no_action_reason, r@),
        None => a.run.no_action_reason == b.run.no_action_reason && a.no_action_reason == b.no_action_reason,
    }
    &&& match proposal {
        Some(p) => holds_text(a.agent.request_id, p.decision.spec_provenance().request_id@) && holds_text(
            a.agent.run_id,
            p.decision.spec_provenance().run_id@,
        ),
        None => a.agent.request_id == b.agent.request_id && a.agent.run_id == b.agent.run_id,
    }
}

/// The model after an execution update: the receipt replaces any earlier
/// one of its execution, at the end; the run is reconciling or executing by
/// its state; an unknown state raises the warning.
pub open spec fn execution_updated(b: OperatorReadModel, a: OperatorReadModel, receipt: ExecutionReceipt, at: Timestamp) -> bool {
    &&& a == (OperatorReadModel {
        run: OperatorRunView { phase: phase_for_execution(receipt.state), updated_at: Some(at), ..b.run },
        revision: next_revision(b.revision),
        updated_at: Some(at),
        executions: a.executions,
        execution_warning: a.execution_warning,
        ..b
    })
    &&& a.executions@ == without_execution(b.executions@, receipt.execution_id).push(receipt)
    &&& if receipt.state == ExecutionState::Unknown {
        holds_text(a.execution_warning, unknown_execution_warning())
    } else {
        a.execution_warning == b.execution_warning
    }
}

/// How each event moves the model from `b` to `a`.
pub open spec fn projected(b: OperatorReadModel, e: OperatorEvent, a: OperatorReadModel) -> bool {
    match e {
        OperatorEvent::RunStarted { run_id, cycle_id, mode, safety_state, at } => run_started(
            b,
            a,
            run_id,
            cycle_id,
            mode,
            safety_state,
            at,
        ),
        OperatorEvent::ResearchStarted { trigger, budget, at } => {
            &&& a == (OperatorReadModel {
                run: OperatorRunView {
                    status: OperatorRunStatus::Running,
                    phase: OperatorRunPhase::Researching,
                    updated_at: Some(at),
                    ..b.run
                },
                revision: next_revision(b.revision),
                updated_at: Some(at),
                agent: OperatorAgentView { status: OperatorAgentStatus::Researching, ..b.agent },
                research: OperatorResearchView { trigger: a.research.trigger, budget: Some(budget), ..b.research },
                ..b
            })
            &&& holds_text(a.research.trigger, trigger@)
        },
        OperatorEvent::ResearchPlanned { requests, at } => a == (OperatorReadModel {
            run: OperatorRunView { phase: OperatorRunPhase::Researching, updated_at: Some(at), ..b.run },
            revision: next_revision(b.revision),
            updated_at: Some(at),
            research: OperatorResearchView { requests, ..b.research },
            ..b
        }),
        OperatorEvent::SourceFailed { source, category, at } => {
            &&& a == (OperatorReadModel {
                run: OperatorRunView { phase: OperatorRunPhase::Researching, updated_at: Some(at), ..b.run },
                revision: next_revision(b.revision),
                updated_at: Some(at),
                sources: a.sources,
                research: OperatorResearchView { errors: a.research.errors, ..b.research },
                ..b
            })
            &&& a.research.errors@ == b.research.errors@.push(OperatorResearchError { source, category })
            &&& a.sources@ == match first_view_of(b.sources@, source) {
                Some(k) => b.sources@.update(
                    k,
                    attempted(b.sources@[k], status_for_error(category), Some(category), at, count_from(b.signals@, source)),
                ),
                None => b.sources@.push(
                    first_attempt(source, status_for_error(category), Some(category), at, count_from(b.signals@, source)),
                ),
            }
        },
        OperatorEvent::AgentDecisionRequested { at } => a == (OperatorReadModel {
            run: OperatorRunView { phase: OperatorRunPhase::Deciding, updated_at: Some(at), ..b.run },
            revision: next_revision(b.revision),
            updated_at: Some(at),
            agent: OperatorAgentView { status: OperatorAgentStatus::Researching, ..b.agent },
            ..b
        }),
        OperatorEvent::SafetyUpdated { state, at } => a == (OperatorReadModel {
            safety_state: state,
            run: OperatorRunView { updated_at: Some(at), ..b.run },
            revision: next_revision(b.revision),
            updated_at: Some(at),
            ..b
        }),
        OperatorEvent::DecisionCycle { requests, errors, opportunities, no_action_reason, proposal, at } => decision_cycle(
            b,
            a,
            requests,
            errors,
            opportunities,
            no_action_reason,
            proposal,
            at,
        ),
        OperatorEvent::RiskEvaluated { risk, at } => a == (OperatorReadModel {
            run: OperatorRunView { phase: OperatorRunPhase::RiskCheck, updated_at: Some(at), ..b.run },
            revision: next_revision(b.revision),
            updated_at: Some(at),
            latest_risk_decision: Some(risk),
            ..b
        }),
        OperatorEvent::ExecutionUpdated { receipt, at } => execution_updated(b, a, receipt, at),
        OperatorEvent::ExecutionFailed { error, at } => {
            &&& a == (OperatorReadModel {
                run: OperatorRunView {
                    phase: OperatorRunPhase::Reconciling,
                    status: OperatorRunStatus::Failed,
                    error: a.run.error,
                    updated_at: Some(at),
                    ..b.run
                },
                revision: next_revision(b.revision),
                updated_at: Some(at),
                execution_warning: a.execution_warning,
                ..b
            })
            &&& holds_text(a.run.error, error@) && holds_text(a.execution_warning, error@)
        },
        OperatorEvent::RunCompleted { at } => a == (OperatorReadModel {
            run: OperatorRunView {
                status: OperatorRunStatus::Completed,
                phase: OperatorRunPhase::Complete,
                updated_at: Some(at),
                completed_at: Some(at),
                ..b.run
            },
            revision: next_revision(b.revision),
            updated_at: Some(at),
            agent: OperatorAgentView { status: OperatorAgentStatus::Idle, ..b.agent },
            ..b
        }),
        OperatorEvent::RunFailed { error, at } => {
            &&& a == (OperatorReadModel {
                run: OperatorRunView {
                    status: OperatorRunStatus::Failed,
                    error: a.run.error,
                    updated_at: Some(at),
                    completed_at: Some(at),
                    ..b.run
                },
                revision: next_revision(b.revision),
                updated_at: Some(at),
                agent: OperatorAgentView { status: OperatorAgentStatus::Degraded, last_error: a.agent.last_error, ..b.agent },
                ..b
            })
            &&& holds_text(a.run.error, error@) && holds_text(a.agent.last_error, error@)
        },
    }
}

fn bump(revision: u64) -> (r: u64)
    ensures
        r == next_revision(revision),
{
    if revision == u64::MAX {
        revision
    } else {
        revision + 1
    }
}

fn clone_text(s: &String) -> (r: String)
    ensures
        r@ == s@,
{
    s.clone()
}

/// The receipts other than those of the execution `id`, in order.
fn drop_execution(executions: Vec<ExecutionReceipt>, id: u128) -> (r: Vec<ExecutionReceipt>)
    ensures
        r@ == without_execution(executions@, id),
{
    let ghost all = executions@;
    let mut kept: Vec<ExecutionReceipt> = Vec::new();
    let mut rest = executions;
    let ghost mut n: int = 0;
    proof {
        assert(all.take(0) =~= Seq::<ExecutionReceipt>::empty());
        assert(rest@ =~= all.skip(0));
    }
    while rest.len() > 0
        invariant
            0 <= n <= all.len(),
            rest@ == all.skip(n),
            kept@ == without_execution(all.take(n), id),
        decreases rest.len(),
    {
        let item = rest.remove(0);
        proof {
            assert(item == all[n]);
            assert(all.take(n + 1).drop_last() =~= all.take(n));
            assert(all.take(n + 1).last() == all[n]);
        }
        if item.execution_id != id {
            kept.push(item);
        }
        proof {
            n = n + 1;
            assert(rest@ =~= all.skip(n));
        }
    }
    proof {
        assert(all.take(n) =~= all);
    }
    kept
}

impl OperatorReadModel {
    /// The model before any run: simulation, normal safety, an idle run and
    /// an agent not yet heard from, nothing listed.
    pub fn new() -> (m: OperatorReadModel)
        ensures
            m.environment == OperatingMode::Simulation,
            m.safety_state == SafetyState::Normal,
            m.run.status == OperatorRunStatus::Idle && m.run.phase == OperatorRunPhase::Idle,
            m.run.run_id is None && m.run.started_at is None && m.run.error is None,
            m.revision == 0,
            m.updated_at is None,
            m.agent.status == OperatorAgentStatus::Unknown,
            m.sources@.len() == 0 && m.signals@.len() == 0 && m.opportunities@.len() == 0 && m.executions@.len() == 0,
            m.latest_proposal is None && m.latest_risk_decision is None && m.no_action_reason is None,
            m.execution_warning is None,
    {
        OperatorReadModel {
            environment: OperatingMode::Simulation,
            safety_state: SafetyState::Normal,
            run: OperatorRunView {
                run_id: None,
                cycle_id: None,
                status: OperatorRunStatus::Idle,
                phase: OperatorRunPhase::Idle,
                started_at: None,
                updated_at: None,
                completed_at: None,
                no_action_reason: None,
                error: None,
            },
            revision: 0,
            updated_at: None,
            agent: OperatorAgentView {
                status: OperatorAgentStatus::Unknown,
                run_id: None,
                request_id: None,
                emitted_at: None,
                decision_id: None,
                last_error: None,
            },
            sources: Vec::new(),
            research: OperatorResearchView::default(),
            signals: Vec::new(),
            opportunities: Vec::new(),
            latest_proposal: None,
            no_action_reason: None,
            latest_risk_decision: None,
            executions: Vec::new(),
            execution_warning: None,
        }
    }
}

/// Moves the model by one recorded event.
pub fn project(model: OperatorReadModel, event: OperatorEvent) -> (m: OperatorReadModel)
    ensures
        projected(model, event, m),
{
    let mut m = model;
    let revision = bump(m.revision);
    match event {
        OperatorEvent::RunStarted { run_id, cycle_id, mode, safety_state, at } => {
            let agent_run = clone_text(&run_id);
            OperatorReadModel {
                environment: mode,
                safety_state,
                run: OperatorRunView {
                    run_id: Some(run_id),
                    cycle_id: Some(cycle_id),
                    status: OperatorRunStatus::Running,
                    phase: OperatorRunPhase::Researching,
                    started_at: Some(at),
                    updated_at: Some(at),
                    completed_at: None,
                    no_action_reason: None,
                    error: None,
                },
                revision,
                updated_at: Some(at),
                agent: OperatorAgentView {
                    status: OperatorAgentStatus::Researching,
                    run_id: Some(agent_run),
                    request_id: None,
                    emitted_at: None,
                    decision_id: None,
                    last_error: None,
                },
                sources: Vec::new(),
                research: OperatorResearchView::default(),
                signals: Vec::new(),
                opportunities: Vec::new(),
                latest_proposal: None,
                no_action_reason: None,
                latest_risk_decision: None,
                executions: Vec::new(),
                execution_warning: None,
            }
        },
        OperatorEvent::ResearchStarted { trigger, budget, at } => {
            m.run.status = OperatorRunStatus::Running;
            m.run.phase = OperatorRunPhase::Researching;
            m.run.updated_at = Some(at);
            m.agent.status = OperatorAgentStatus::Researching;
            m.research.trigger = Some(trigger);
            m.research.budget = Some(budget);
            m.revision = revision;
            m.updated_at = Some(at);
            m
        },
        OperatorEvent::ResearchPlanned { requests, at } => {
            m.run.phase = OperatorRunPhase::Researching;
            m.run.updated_at = Some(at);
            m.research.requests = requests;
            m.revision = revision;
            m.updated_at = Some(at);
            m
        },
        OperatorEvent::SourceFailed { source, category, at } => {
            m.research.errors.push(OperatorResearchError { source, category });
            update_source_health(&mut m.sources, source, source_status_for_error(category), Some(category), at, &m.signals);
            m.run.phase = OperatorRunPhase::Researching;
            m.run.updated_at = Some(at);
            m.revision = revision;
            m.updated_at = Some(at);
            m
        },
        OperatorEvent::AgentDecisionRequested { at } => {
            m.agent.status = OperatorAgentStatus::Researching;
            m.run.phase = OperatorRunPhase::Deciding;
            m.run.updated_at = Some(at);
            m.revision = revision;
            m.updated_at = Some(at);
            m
        },
        OperatorEvent::SafetyUpdated { state, at } => {
            m.safety_state = state;
            m.run.updated_at = Some(at);
            m.revision = revision;
            m.updated_at = Some(at);
            m
        },
        OperatorEvent::DecisionCycle { requests, errors, opportunities, no_action_reason, proposal, at } => {
            m.run.phase = OperatorRunPhase::Deciding;
            m.run.updated_at = Some(at);
            m.research.requests = requests;
            m.research.errors = errors;
            m.opportunities = opportunities;
            match no_action_reason {
                Some(reason) => {
                    m.run.no_action_reason = Some(clone_text(&reason));
                    m.no_action_reason = Some(reason);
                    m.run.status = OperatorRunStatus::NoAction;
                    m.agent.status = OperatorAgentStatus::Degraded;
                },
                None => {},
            }
            match proposal {
                Some(p) => {
                    let provenance = p.decision.provenance();
                    m.agent.status = OperatorAgentStatus::Proposed;
                    m.agent.request_id = Some(clone_text(&provenance.request_id));
                    m.agent.run_id = Some(clone_text(&provenance.run_id));
                    m.agent.emitted_at = Some(provenance.emitted_at);
                    m.agent.decision_id = Some(p.decision.decision().decision_id);
                    m.run.phase = OperatorRunPhase::RiskCheck;
                    m.latest_proposal = Some(p);
                },
                None => {},
            }
            m.revision = revision;
            m.updated_at = Some(at);
            m
        },
        OperatorEvent::RiskEvaluated { risk, at } => {
            m.latest_risk_decision = Some(risk);
            m.run.phase = OperatorRunPhase::RiskCheck;
            m.run.updated_at = Some(at);
            m.revision = revision;
            m.updated_at = Some(at);
            m
        },
        OperatorEvent::ExecutionUpdated { receipt, at } => {
            m.run.phase = execution_phase(receipt.state);
            m.run.updated_at = Some(at);
            let unknown = receipt.state == ExecutionState::Unknown;
            let mut executions = Vec::new();
            std::mem::swap(&mut executions, &mut m.executions);
            let mut executions = drop_execution(executions, receipt.execution_id);
            executions.push(receipt);
            m.executions = executions;
            if unknown {
                m.execution_warning = Some(String::from_str(
                    "Execution state unknown. Reconciliation in progress. No duplicate placement will be attempted.",
                ));
                proof {
                    reveal_strlit(
                        "Execution state unknown. Reconciliation in progress. No duplicate placement will be attempted.",
                    );
                }
            }
            m.revision = revision;
            m.updated_at = Some(at);
            m
        },
        OperatorEvent::ExecutionFailed { error, at } => {
            m.run.phase = OperatorRunPhase::Reconciling;
            m.run.status = OperatorRunStatus::Failed;
            m.run.error = Some(clone_text(&error));
            m.run.updated_at = Some(at);
            m.execution_warning = Some(error);
            m.revision = revision;
            m.updated_at = Some(at);
            m
        },
        OperatorEvent::RunCompleted { at } => {
            m.run.status = OperatorRunStatus::Completed;
            m.run.phase = OperatorRunPhase::Complete;
            m.run.updated_at = Some(at);
            m.run.completed_at = Some(at);
            m.agent.status = OperatorAgentStatus::Idle;
            m.revision = revision;
            m.updated_at = Some(at);
            m
        },
        OperatorEvent::RunFailed { error, at } => {
            m.run.status = OperatorRunStatus::Failed;
            m.run.error = Some(clone_text(&error));
            m.run.updated_at = Some(at);
            m.run.completed_at = Some(at);
            m.agent.status = OperatorAgentStatus::Degraded;
            m.agent.last_error = Some(error);
            m.revision = revision;
            m.updated_at = Some(at);
            m
        },
    }
}

/// The model once killed at `at`: the safety state and a new revision,
/// nothing else.
pub open spec fn killed_at(b: OperatorReadModel, at: Timestamp) -> OperatorReadModel {
    OperatorReadModel { safety_state: SafetyState::Killed, revision: next_revision(b.revision), updated_at: Some(at), ..b }
}

/// The kill switch: on the exact confirmation `KILL` the shared safety
/// state moves to `Killed` and so does the model, with a new revision at
/// the current time; anything else, or a safety state that cannot be
/// written, leaves the model as it was.
pub fn kill(model: &mut OperatorReadModel, store: &SafetyStateStore, confirmation: &str) -> (r: Result<SafetyState, OperatorError>)
    ensures
        confirmation@ != "KILL"@ ==> r == Err::<SafetyState, OperatorError>(OperatorError::ConfirmationRequired),
        confirmation@ == "KILL"@ ==> r == Ok::<SafetyState, OperatorError>(SafetyState::Killed) || r == Err::<
            SafetyState,
            OperatorError,
        >(OperatorError::StateUnavailable),
        r is Err ==> *final(model) == *old(model),
        r is Ok ==> exists|at: Timestamp| *final(model) == #[trigger] killed_at(*old(model), at),
{
    match kill_confirmation(confirmation) {
        Ok(()) => {},
        Err(e) => {
            return Err(e);
        },
    }
    match store.kill() {
        Ok(_) => {},
        Err(_) => {
            return Err(OperatorError::StateUnavailable);
        },
    }
    let at = now_utc();
    model.safety_state = SafetyState::Killed;
    model.revision = bump(model.revision);
    model.updated_at = Some(at);
    assert(*model == killed_at(*old(model), at));
    Ok(SafetyState::Killed)
}

/// The record names the instrument among the assets it affects.
pub open spec fn names_asset(e: IntelligenceEvidence, sym: Seq<char>) -> bool {
    exists|i: int| 0 <= i < e.affected_assets@.len() && (#[trigger] e.affected_assets@[i]).instrument@ == sym
}

/// Whether a cached record answers an investigation: of an asset, it names
/// the instrument; of an event, it carries the fingerprint.
pub open spec fn answers_query(e: IntelligenceEvidence, by_asset: bool, key: Seq<char>) -> bool {
    if by_asset {
        names_asset(e, key)
    } else {
        e.event_fingerprint.spec_text() == key
    }
}

/// The records that answer the investigation, in their order.
pub open spec fn matching(s: Seq<IntelligenceEvidence>, by_asset: bool, key: Seq<char>) -> Seq<IntelligenceEvidence>
    decreases s.len(),
{
    if s.len() == 0 {
        s
    } else {
        let r = matching(s.drop_last(), by_asset, key);
        if answers_query(s.last(), by_asset, key) {
            r.push(s.last())
        } else {
            r
        }
    }
}

/// An investigation's answer: at most `limit` of the matching records, the
/// first ones, each a copy.
pub open spec fn investigated(r: Seq<IntelligenceEvidence>, s: Seq<IntelligenceEvidence>, by_asset: bool, key: Seq<char>, limit: nat) -> bool {
    let m = matching(s, by_asset, key);
    &&& r.len() == (if m.len() < limit { m.len() } else { limit })
    &&& forall|j: int| 0 <= j < r.len() ==> crate::intelligence::evidence::evidence_same(#[trigger] r[j], m[j])
}

fn names_instrument(e: &IntelligenceEvidence, instrument: &str) -> (b: bool)
    ensures
        b == names_asset(*e, instrument@),
{
    let mut i: usize = 0;
    while i < e.affected_assets.len()
        invariant
            i <= e.affected_assets@.len(),
            forall|k: int| 0 <= k < i ==> (#[trigger] e.affected_assets@[k]).instrument@ != instrument@,
        decreases e.affected_assets.len() - i,
    {
        if crate::text::str_eq(e.affected_assets[i].instrument.symbol(), instrument) {
            return true;
        }
        i = i + 1;
    }
    false
}

proof fn lemma_matching_prefix(s: Seq<IntelligenceEvidence>, by_asset: bool, key: Seq<char>, i: int)
    requires
        0 <= i < s.len(),
    ensures
        matching(s.take(i + 1), by_asset, key) == if answers_query(s[i], by_asset, key) {
            matching(s.take(i), by_asset, key).push(s[i])
        } else {
            matching(s.take(i), by_asset, key)
        },
{
    assert(s.take(i + 1).drop_last() =~= s.take(i));
}

fn investigate(signals: &Vec<IntelligenceEvidence>, by_asset: bool, key: &str, limit: usize) -> (r: Vec<IntelligenceEvidence>)
    ensures
        investigated(r@, signals@, by_asset, key@, limit as nat),
{
    let mut found: Vec<IntelligenceEvidence> = Vec::new();
    let mut i: usize = 0;
    proof {
        assert(signals@.take(0) =~= Seq::<IntelligenceEvidence>::empty());
    }
    while i < signals.len() && found.len() < limit
        invariant
            i <= signals@.len(),
            investigated(found@, signals@.take(i as int), by_asset, key@, limit as nat),
        decreases signals.len() - i,
    {
        let e = &signals[i];
        let hit = if by_asset {
            names_instrument(e, key)
        } else {
            crate::text::str_eq(e.event_fingerprint.as_str(), key)
        };
        proof {
            lemma_matching_prefix(signals@, by_asset, key@, i as int);
        }
        if hit {
            found.push(e.clone());
        }
        i = i + 1;
    }
    proof {
        let m = matching(signals@.take(i as int), by_asset, key@);
        if i < signals@.len() {
            // stopped at the limit: later records only lengthen the matches
            lemma_matching_grows(signals@, by_asset, key@, i as int, signals@.len() as int);
            assert(signals@.take(signals@.len() as int) =~= signals@);
            let all = matching(signals@, by_asset, key@);
            assert(found@.len() == limit);
            assert forall|j: int| 0 <= j < found@.len() implies crate::intelligence::evidence::evidence_same(
                #[trigger] found@[j],
                all[j],
            ) by {
                assert(matching(signals@.take(signals@.len() as int), by_asset, key@)[j] == m[j]);
            }
        } else {
            assert(signals@.take(i as int) =~= signals@);
        }
    }
    found
}

proof fn lemma_matching_grows(s: Seq<IntelligenceEvidence>, by_asset: bool, key: Seq<char>, i: int, j: int)
    requires
        0 <= i <= j <= s.len(),
    ensures
        matching(s.take(i), by_asset, key).len() <= matching(s.take(j), by_asset, key).len(),
        forall|k: int| 0 <= k < matching(s.take(i), by_asset, key).len() ==> #[trigger] matching(s.take(j), by_asset, key)[k]
            == matching(s.take(i), by_asset, key)[k],
    decreases j - i,
{
    if i < j {
        lemma_matching_grows(s, by_asset, key, i, j - 1);
        lemma_matching_prefix(s, by_asset, key, j - 1);
    }
}

/// The cached records that name the instrument, at most `limit` of them:
/// what an asset investigation answers, with no network access.
pub fn investigate_asset(model: &OperatorReadModel, instrument: &str, limit: usize) -> (r: Vec<IntelligenceEvidence>)
    ensures
        investigated(r@, model.signals@, true, instrument@, limit as nat),
{
    investigate(&model.signals, true, instrument, limit)
}

/// The cached records of the event, at most `limit` of them: what an event
/// investigation answers, with no network access.
pub fn investigate_event(model: &OperatorReadModel, event_fingerprint: &str, limit: usize) -> (r: Vec<IntelligenceEvidence>)
    ensures
        investigated(r@, model.signals@, false, event_fingerprint@, limit as nat),
{
    investigate(&model.signals, false, event_fingerprint, limit)
}

} // verus!
