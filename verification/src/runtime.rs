//! The in-process path from decision intent to execution: every intent
//! passes the risk engine under the current safety state, and only an
//! approved one is planned and handed to the execution engine.

use vstd::prelude::*;

use crate::domain::decisions::TradeDecision;
use crate::execution::engine::ExecutionEngine;
use crate::execution::{ExecutionError, ExecutionGateway, ExecutionPlan, ExecutionPolicy, ExecutionReceipt, MarketQuote};
use crate::risk::{
    evaluation_in_range, is_approved_outcome, verdict_outcome, RiskConfig, RiskDecision, RiskEngine, RiskOutcome, RiskSnapshot, SafetyState,
    SafetyStateStore,
};

verus! {

#[derive(Debug)]
pub enum RuntimeError {
    Execution(ExecutionError),
    Projection(String),
}

#[derive(Debug)]
pub enum RuntimeOutcome {
    NoAction { risk: RiskDecision },
    Rejected { risk: RiskDecision },
    Executed { risk: RiskDecision, plan: Box<ExecutionPlan>, receipt: Box<ExecutionReceipt> },
}

/// Told about each step of processing, for the operator's projection; a
/// failure to record a step stops the processing.
pub trait RuntimeObserver {
    fn risk_evaluated(&mut self, risk: &RiskDecision) -> Result<(), String>;

    fn execution_planned(&mut self, plan: &ExecutionPlan) -> Result<(), String>;

    fn execution_failed(&mut self, plan: &ExecutionPlan, error: &ExecutionError) -> Result<(), String>;

    fn execution_updated(&mut self, plan: &ExecutionPlan, receipt: &ExecutionReceipt) -> Result<(), String>;
}

pub struct RuntimeCoordinator<G> {
    risk: RiskEngine,
    policy: ExecutionPolicy,
    execution: ExecutionEngine<G>,
    safety_state: SafetyStateStore,
}

/// What processing an intent gave: nothing or a refusal for an intent the
/// risk engine did not approve, and an execution only for one it did.
pub open spec fn outcome_follows_risk(decision: TradeDecision, r: Result<RuntimeOutcome, RuntimeError>) -> bool {
    match r {
        Ok(RuntimeOutcome::NoAction { risk }) => risk.outcome == RiskOutcome::NoAction && risk.decision_id == decision.decision_id,
        Ok(RuntimeOutcome::Rejected { risk }) => risk.outcome == RiskOutcome::Rejected && risk.decision_id == decision.decision_id,
        Ok(RuntimeOutcome::Executed { risk, plan, receipt }) => {
            &&& is_approved_outcome(risk.outcome)
            &&& risk.decision_id == decision.decision_id
            &&& plan.decision_id == decision.decision_id
            &&& plan.risk_decision_id == risk.risk_decision_id
        },
        Err(_) => true,
    }
}

/// What processing an intent answers under the safety state `state`: the
/// risk engine's verdict on the intent, with `state` put into the snapshot,
/// decides; an intent it leaves alone or refuses is answered so, and an
/// approved one is executed unless planning or execution refuses it.
pub open spec fn answers_verdict(
    c: RiskConfig,
    decision: TradeDecision,
    snapshot: RiskSnapshot,
    state: SafetyState,
    r: Result<RuntimeOutcome, RuntimeError>,
) -> bool {
    let o = verdict_outcome(c, decision, RiskSnapshot { safety_state: state, ..snapshot });
    &&& o == RiskOutcome::NoAction ==> (r matches Ok(RuntimeOutcome::NoAction { .. }))
    &&& o == RiskOutcome::Rejected ==> (r matches Ok(RuntimeOutcome::Rejected { .. }))
    &&& is_approved_outcome(o) ==> ((r matches Ok(RuntimeOutcome::Executed { risk, .. }) && risk.outcome == o)
        || (r matches Err(RuntimeError::Execution(_))))
}

/// As `answers_verdict`, where the observer may in addition stop the
/// processing at any step with its own failure.
pub open spec fn answers_verdict_observed(
    c: RiskConfig,
    decision: TradeDecision,
    snapshot: RiskSnapshot,
    state: SafetyState,
    r: Result<RuntimeOutcome, RuntimeError>,
) -> bool {
    (r matches Err(RuntimeError::Projection(_))) || answers_verdict(c, decision, snapshot, state, r)
}

impl<G: ExecutionGateway> RuntimeCoordinator<G> {
    pub closed spec fn spec_config(&self) -> RiskConfig {
        self.risk.spec_config()
    }

    pub closed spec fn spec_execution(&self) -> ExecutionEngine<G> {
        self.execution
    }

    pub closed spec fn wf(&self) -> bool {
        self.execution.wf()
    }

    pub fn new(risk_config: RiskConfig, policy: ExecutionPolicy, gateway: G) -> (c: RuntimeCoordinator<G>)
        ensures
            c.wf(),
            c.spec_config() == risk_config,
    {
        RuntimeCoordinator {
            risk: RiskEngine::new(risk_config),
            policy,
            execution: ExecutionEngine::new(gateway),
            safety_state: SafetyStateStore::new(SafetyState::Normal),
        }
    }

    pub fn with_safety_state_store(risk_config: RiskConfig, policy: ExecutionPolicy, gateway: G, safety_state: SafetyStateStore) -> (c: RuntimeCoordinator<G>)
        ensures
            c.wf(),
            c.spec_config() == risk_config,
    {
        RuntimeCoordinator { risk: RiskEngine::new(risk_config), policy, execution: ExecutionEngine::new(gateway), safety_state }
    }

    /// Evaluates the intent under the current safety state, and plans and
    /// executes it only where the risk engine approves it; an intent that
    /// is not approved leaves the execution engine as it was.
    pub fn process(&mut self, decision: TradeDecision, snapshot: RiskSnapshot, quote: MarketQuote) -> (r: Result<RuntimeOutcome, RuntimeError>)
        requires
            old(self).wf(),
            evaluation_in_range(old(self).spec_config(), snapshot),
        ensures
            final(self).wf(),
            outcome_follows_risk(decision, r),
            final(self).spec_config() == old(self).spec_config(),
            (r matches Ok(RuntimeOutcome::NoAction { .. }) || r matches Ok(RuntimeOutcome::Rejected { .. }))
                ==> final(self).spec_execution() == old(self).spec_execution(),
            exists|state: SafetyState| #[trigger] answers_verdict(old(self).spec_config(), decision, snapshot, state, r),
    {
        let ghost given = snapshot;
        let state = self.safety_state.state();
        let snapshot = snapshot.with_safety_state(state);
        let risk = self.risk.evaluate(&decision, &snapshot);
        let r = match risk.outcome {
            RiskOutcome::NoAction => Ok(RuntimeOutcome::NoAction { risk }),
            RiskOutcome::Rejected => Ok(RuntimeOutcome::Rejected { risk }),
            _ => match self.policy.plan(&risk, &decision, &quote) {
                Err(e) => Err(RuntimeError::Execution(e)),
                Ok(plan) => match self.execution.execute(&risk, plan.clone()) {
                    Err(e) => Err(RuntimeError::Execution(e)),
                    Ok(receipt) => Ok(RuntimeOutcome::Executed { risk, plan: Box::new(plan), receipt: Box::new(receipt) }),
                },
            },
        };
        assert(answers_verdict(self.spec_config(), decision, given, state, r));
        r
    }

    /// Processes an intent as `process` does, telling the observer of the
    /// risk decision, the plan, and the execution's outcome or failure.
    pub fn process_with_projection<O: RuntimeObserver>(
        &mut self,
        decision: TradeDecision,
        snapshot: RiskSnapshot,
        quote: MarketQuote,
        observer: &mut O,
    ) -> (r: Result<RuntimeOutcome, RuntimeError>)
        requires
            old(self).wf(),
            evaluation_in_range(old(self).spec_config(), snapshot),
        ensures
            final(self).wf(),
            outcome_follows_risk(decision, r),
            final(self).spec_config() == old(self).spec_config(),
            (r matches Ok(RuntimeOutcome::NoAction { .. }) || r matches Ok(RuntimeOutcome::Rejected { .. }))
                ==> final(self).spec_execution() == old(self).spec_execution(),
            exists|state: SafetyState| #[trigger] answers_verdict_observed(old(self).spec_config(), decision, snapshot, state, r),
    {
        let ghost given = snapshot;
        let state = self.safety_state.state();
        let snapshot = snapshot.with_safety_state(state);
        let risk = self.risk.evaluate(&decision, &snapshot);
        let r = match observer.risk_evaluated(&risk) {
            Err(m) => Err(RuntimeError::Projection(m)),
            Ok(()) => match risk.outcome {
                RiskOutcome::NoAction => Ok(RuntimeOutcome::NoAction { risk }),
                RiskOutcome::Rejected => Ok(RuntimeOutcome::Rejected { risk }),
                _ => match self.policy.plan(&risk, &decision, &quote) {
                    Err(e) => Err(RuntimeError::Execution(e)),
                    Ok(plan) => match observer.execution_planned(&plan) {
                        Err(m) => Err(RuntimeError::Projection(m)),
                        Ok(()) => match self.execution.execute(&risk, plan.clone()) {
                            Err(e) => match observer.execution_failed(&plan, &e) {
                                Err(m) => Err(RuntimeError::Projection(m)),
                                Ok(()) => Err(RuntimeError::Execution(e)),
                            },
                            Ok(receipt) => match observer.execution_updated(&plan, &receipt) {
                                Err(m) => Err(RuntimeError::Projection(m)),
                                Ok(()) => Ok(
                                    RuntimeOutcome::Executed { risk, plan: Box::new(plan), receipt: Box::new(receipt) },
                                ),
                            },
                        },
                    },
                },
            },
        };
        assert(answers_verdict_observed(self.spec_config(), decision, given, state, r));
        r
    }

    pub fn execution(&self) -> (e: &ExecutionEngine<G>)
        ensures
            *e == self.spec_execution(),
    {
        &self.execution
    }

    pub fn execution_mut(&mut self) -> (e: &mut ExecutionEngine<G>)
        ensures
            *e == old(self).spec_execution(),
            final(self).spec_execution() == *final(e),
            final(self).spec_config() == old(self).spec_config(),
    {
        &mut self.execution
    }
}

} // verus!
