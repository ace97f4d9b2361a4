//! Risk-approved execution planning, lifecycle state, and reconciliation.

use vstd::prelude::*;

use crate::dec::{decimal_div, decimal_mul, decimal_sub, units, Dec, DecView};
use crate::domain::decisions::{decision_check, TradeAction, TradeDecision, Urgency};
use crate::domain::error::domain_error_text;
use crate::domain::instrument::Instrument;
use crate::ids::{new_uuid_v4, DecisionId};
use crate::risk::{is_approved_outcome, ApprovedIntent, OperatingMode, RiskDecision};
use crate::text::{concat, hex_digits, hex_text};
use crate::timestamp::Timestamp;
use crate::simulation::{
    fault_is, request_fault, ExecutionRequest, ExecutionResult, MarketSnapshot, OrderSize, OrderType as SimOrderType,
    SimulationEngine, SimulationError,
};

pub mod engine;
pub use engine::ExecutionEngine;

verus! {

#[derive(Debug, PartialEq, Eq)]
pub enum ExecutionError {
    RiskNotApproved,
    RiskPlanMismatch,
    PriceConstraint,
    InvalidPlan(String),
    GatewayUnavailable,
    Gateway(String),
    UnresolvedDuplicate,
    ReconciliationRequired,
    EnvironmentMismatch,
    DuplicateClientOrderId,
    NotFound(u128),
    NotStale,
}

#[derive(Debug, PartialEq, Eq)]
pub struct MarketQuote {
    pub instrument: Instrument,
    pub observed_at: Timestamp,
    pub bid: Dec,
    pub ask: Dec,
}

/// A quote with a positive bid no higher than a positive ask.
pub open spec fn quote_ok(bid: Dec, ask: Dec) -> bool {
    units(bid@) > 0 && units(ask@) > 0 && units(bid@) <= units(ask@)
}

impl MarketQuote {
    pub fn new(instrument: Instrument, observed_at: Timestamp, bid: Dec, ask: Dec) -> (r: Result<MarketQuote, ExecutionError>)
        ensures
            r is Ok <==> quote_ok(bid, ask),
            r matches Ok(q) ==> q == (MarketQuote { instrument, observed_at, bid, ask }),
            r matches Err(ExecutionError::InvalidPlan(m)) ==> m@ == "market quote must have positive bid <= ask"@,
            r matches Err(e) ==> e is InvalidPlan,
    {
        if !bid.is_positive() || !ask.is_positive() || ask.lt(&bid) {
            return Err(ExecutionError::InvalidPlan(String::from_str("market quote must have positive bid <= ask")));
        }
        Ok(MarketQuote { instrument, observed_at, bid, ask })
    }
}

#[derive(Clone, Copy, Debug, PartialEq, Eq)]
pub enum PlannedOrderType {
    Market,
    Limit { price: Dec },
}

#[derive(Clone, Copy, Debug, PartialEq, Eq)]
pub enum PlannedSize {
    Quantity(Dec),
    Notional(Dec),
}

#[derive(Debug, PartialEq, Eq)]
pub struct ExecutionPlan {
    pub execution_id: u128,
    pub decision_id: DecisionId,
    pub risk_decision_id: u128,
    pub instrument: Instrument,
    pub action: TradeAction,
    pub operating_mode: OperatingMode,
    pub size: PlannedSize,
    pub order_type: PlannedOrderType,
    pub client_order_id: String,
    pub created_at: Timestamp,
    pub risk_increasing: bool,
    pub protective: bool,
}

impl Clone for ExecutionPlan {
    fn clone(&self) -> (r: ExecutionPlan)
        ensures
            r == *self,
    {
        ExecutionPlan {
            execution_id: self.execution_id,
            decision_id: self.decision_id,
            risk_decision_id: self.risk_decision_id,
            instrument: self.instrument.clone(),
            action: self.action,
            operating_mode: self.operating_mode,
            size: self.size,
            order_type: self.order_type,
            client_order_id: self.client_order_id.clone(),
            created_at: self.created_at,
            risk_increasing: self.risk_increasing,
            protective: self.protective,
        }
    }
}

#[derive(Clone, Copy, Debug, PartialEq, Eq, Structural)]
pub enum ExecutionState {
    Planned,
    Submitted,
    Acknowledged,
    PartiallyFilled,
    Filled,
    CancelPending,
    Cancelled,
    Rejected,
    Unknown,
}

#[derive(Debug, PartialEq, Eq)]
pub enum GatewayPlacement {
    Acknowledged { exchange_order_id: String },
    Rejected { code: String, message: String },
    Unknown { reason: String },
}

#[derive(Clone, Copy, Debug, PartialEq, Eq, Structural)]
pub enum GatewayOrderState {
    Open,
    PartiallyFilled,
    Filled,
    Cancelled,
    Rejected,
    Unknown,
}

#[derive(Clone, Copy, Debug, PartialEq, Eq)]
pub struct GatewayOrderStatus {
    pub state: GatewayOrderState,
    pub filled_quantity: Dec,
    pub remaining_quantity: Option<Dec>,
    pub average_price: Option<Dec>,
}

impl GatewayOrderStatus {
    pub fn filled(quantity: Dec, average_price: Dec) -> (s: GatewayOrderStatus)
        ensures
            s.state == GatewayOrderState::Filled,
            s.filled_quantity == quantity,
            s.remaining_quantity matches Some(z) && units(z@) == 0,
            s.average_price == Some(average_price),
    {
        GatewayOrderStatus {
            state: GatewayOrderState::Filled,
            filled_quantity: quantity,
            remaining_quantity: Some(Dec::zero()),
            average_price: Some(average_price),
        }
    }
}

/// The venue that carries out execution plans.
pub trait ExecutionGateway {
    fn place(&mut self, plan: &ExecutionPlan) -> GatewayPlacement;

    fn query(&mut self, instrument: &Instrument, client_order_id: &str) -> Result<GatewayOrderStatus, ExecutionError>;

    fn cancel(&mut self, instrument: &Instrument, client_order_id: &str) -> GatewayPlacement;

    fn is_available(&self) -> bool;

    /// The mode the venue trades in: simulation unless the venue says
    /// otherwise.
    open spec fn spec_mode(&self) -> OperatingMode {
        OperatingMode::Simulation
    }

    fn operating_mode(&self) -> (m: OperatingMode)
        ensures
            m == self.spec_mode(),
    ;
}

#[derive(Debug, PartialEq, Eq)]
pub struct ExecutionReceipt {
    pub execution_id: u128,
    pub client_order_id: String,
    pub exchange_order_id: Option<String>,
    pub state: ExecutionState,
    pub filled_quantity: Dec,
    pub remaining_quantity: Option<Dec>,
    pub average_price: Option<Dec>,
}

impl Clone for ExecutionReceipt {
    fn clone(&self) -> (r: ExecutionReceipt)
        ensures
            r == *self,
    {
        ExecutionReceipt {
            execution_id: self.execution_id,
            client_order_id: self.client_order_id.clone(),
            exchange_order_id: match &self.exchange_order_id {
                Some(s) => Some(s.clone()),
                None => None,
            },
            state: self.state,
            filled_quantity: self.filled_quantity,
            remaining_quantity: self.remaining_quantity,
            average_price: self.average_price,
        }
    }
}

#[derive(Debug, PartialEq, Eq)]
pub struct ExecutionCheckpoint {
    pub plan: ExecutionPlan,
    pub receipt: ExecutionReceipt,
}

impl Clone for ExecutionCheckpoint {
    fn clone(&self) -> (r: ExecutionCheckpoint)
        ensures
            r == *self,
    {
        ExecutionCheckpoint { plan: self.plan.clone(), receipt: self.receipt.clone() }
    }
}

#[derive(Clone, Copy, Debug, PartialEq, Eq)]
pub struct ExecutionPolicy {
    pub limit_order_timeout_secs: i64,
    pub max_market_spread_bps: Dec,
}

impl Default for ExecutionPolicy {
    /// A one-minute limit timeout and a 200 basis-point market spread cap.
    fn default() -> (p: ExecutionPolicy)
        ensures
            p.limit_order_timeout_secs == 60,
            p.max_market_spread_bps@ == (200int, 0nat),
    {
        ExecutionPolicy { limit_order_timeout_secs: 60, max_market_spread_bps: Dec::from_i64(200) }
    }
}

/// The spread of a quote in basis points of the ask, `(ask - bid) * 10000 / ask`,
/// or `None` where one of the three decimal steps overflows.
pub open spec fn spread_bps(q: MarketQuote) -> Option<DecView> {
    match decimal_sub(q.ask@, q.bid@) {
        Some(diff) => match decimal_mul(diff, (10000int, 0nat)) {
            Some(scaled) => decimal_div(scaled, q.ask@),
            None => None,
        },
        None => None,
    }
}

/// The client order ID of an execution: `pt-` and the UUID in simple form.
pub open spec fn client_order_id_for(execution_id: u128) -> Seq<char> {
    "pt-"@ + hex_digits(execution_id as nat, 32)
}

pub open spec fn planned_order_type(d: TradeDecision, q: MarketQuote) -> PlannedOrderType {
    if d.urgency == Urgency::High {
        PlannedOrderType::Market
    } else {
        PlannedOrderType::Limit {
            price: match d.max_acceptable_price {
                Some(p) => p,
                None => if d.action == TradeAction::Buy { q.ask } else { q.bid },
            },
        }
    }
}

/// Why planning refuses a valid decision.
pub enum PlanRefusal {
    RiskNotApproved,
    RiskPlanMismatch,
    PriceConstraint,
    SizeMissing,
}

/// The refusal that planning gives for a decision that passed validation, if any.
pub open spec fn plan_refusal(policy: ExecutionPolicy, risk: RiskDecision, d: TradeDecision, q: MarketQuote) -> Option<PlanRefusal> {
    if !is_approved_outcome(risk.outcome) || risk.approved_intent is None {
        Some(PlanRefusal::RiskNotApproved)
    } else if risk.approved_intent->0.instrument@ != d.instrument@ || q.instrument@ != d.instrument@ {
        Some(PlanRefusal::RiskPlanMismatch)
    } else if d.urgency == Urgency::High && (match spread_bps(q) {
        Some(s) => units(s) > units(policy.max_market_spread_bps@),
        None => true,
    } || (d.action == TradeAction::Buy && (d.max_acceptable_price matches Some(p) && units(p@) < units(q.ask@)))) {
        Some(PlanRefusal::PriceConstraint)
    } else if d.urgency != Urgency::High && d.action == TradeAction::Hold {
        Some(PlanRefusal::RiskNotApproved)
    } else if planned_size(risk.approved_intent->0) is None {
        Some(PlanRefusal::SizeMissing)
    } else {
        None
    }
}

/// A high-urgency BUY is never planned above the agent's price ceiling:
/// where the maximum acceptable price lies below the ask, planning refuses
/// (for price, once the risk verdict and the instruments agree); a plan
/// that goes ahead has no ceiling or one at or above the ask.
pub proof fn market_buy_respects_ceiling(policy: ExecutionPolicy, risk: RiskDecision, d: TradeDecision, q: MarketQuote)
    requires
        d.urgency == Urgency::High,
        d.action == TradeAction::Buy,
    ensures
        (match d.max_acceptable_price {
            Some(p) => units(p@) < units(q.ask@),
            None => false,
        }) ==> plan_refusal(policy, risk, d, q) is Some,
        (match d.max_acceptable_price {
            Some(p) => units(p@) < units(q.ask@),
            None => false,
        }) && is_approved_outcome(risk.outcome) && risk.approved_intent is Some && risk.approved_intent->0.instrument@
            == d.instrument@ && q.instrument@ == d.instrument@ ==> plan_refusal(policy, risk, d, q) == Some(PlanRefusal::PriceConstraint),
        plan_refusal(policy, risk, d, q) is None ==> match d.max_acceptable_price {
            Some(p) => units(p@) >= units(q.ask@),
            None => true,
        },
{
}

/// A high-urgency BUY whose ceiling is at or above the ask, on an approved
/// verdict for the same instrument with a spread within the cap, is not
/// refused for price.
pub proof fn market_buy_within_ceiling_is_planned(policy: ExecutionPolicy, risk: RiskDecision, d: TradeDecision, q: MarketQuote)
    requires
        d.urgency == Urgency::High,
        d.action == TradeAction::Buy,
        match d.max_acceptable_price {
            Some(p) => units(p@) >= units(q.ask@),
            None => true,
        },
        spread_bps(q) matches Some(sp) && units(sp) <= units(policy.max_market_spread_bps@),
    ensures
        plan_refusal(policy, risk, d, q) != Some(PlanRefusal::PriceConstraint),
{
}

/// A decision that is not urgent is planned as a limit order at its
/// maximum acceptable price, or else at the ask for a BUY and the bid for a
/// SELL; an urgent one as a market order.
pub proof fn order_type_follows_urgency(d: TradeDecision, q: MarketQuote)
    ensures
        d.urgency == Urgency::High ==> planned_order_type(d, q) == PlannedOrderType::Market,
        d.urgency != Urgency::High ==> planned_order_type(d, q) == (PlannedOrderType::Limit {
            price: match d.max_acceptable_price {
                Some(p) => p,
                None => if d.action == TradeAction::Buy {
                    q.ask
                } else {
                    q.bid
                },
            },
        }),
{
}

/// The error that stands for a refusal.
pub open spec fn refusal_matches(f: PlanRefusal, e: ExecutionError) -> bool {
    match f {
        PlanRefusal::RiskNotApproved => e == ExecutionError::RiskNotApproved,
        PlanRefusal::RiskPlanMismatch => e == ExecutionError::RiskPlanMismatch,
        PlanRefusal::PriceConstraint => e == ExecutionError::PriceConstraint,
        PlanRefusal::SizeMissing => e matches ExecutionError::InvalidPlan(m) && m@ == "approved size is missing"@,
    }
}

pub open spec fn planned_size(i: ApprovedIntent) -> Option<PlannedSize> {
    if i.action == TradeAction::Buy && i.notional is Some {
        Some(PlannedSize::Notional(i.notional->0))
    } else if i.action == TradeAction::Sell && i.quantity is Some {
        Some(PlannedSize::Quantity(i.quantity->0))
    } else {
        None
    }
}

impl ExecutionPolicy {
    pub fn with_limit_order_timeout_secs(self, value: i64) -> (p: ExecutionPolicy)
        ensures
            p == (ExecutionPolicy { limit_order_timeout_secs: value, ..self }),
    {
        ExecutionPolicy { limit_order_timeout_secs: value, ..self }
    }

    /// Turns an approved risk decision into an execution plan, with a fresh
    /// execution ID and the client order ID derived from it.
    pub fn plan(&self, risk: &RiskDecision, decision: &TradeDecision, quote: &MarketQuote) -> (r: Result<ExecutionPlan, ExecutionError>)
        ensures
            decision_check(*decision) matches Err(e) ==> r matches Err(ExecutionError::InvalidPlan(m)) && m@ == domain_error_text(e),
            decision_check(*decision) is Ok ==> match plan_refusal(*self, *risk, *decision, *quote) {
                Some(f) => r matches Err(e) && refusal_matches(f, e),
                None => r is Ok,
            },
            r matches Ok(p) ==> {
                let intent = risk.approved_intent->0;
                &&& p.decision_id == decision.decision_id
                &&& p.risk_decision_id == risk.risk_decision_id
                &&& p.instrument@ == decision.instrument@
                &&& p.action == decision.action
                &&& p.operating_mode == intent.operating_mode
                &&& Some(p.size) == planned_size(intent)
                &&& p.order_type == planned_order_type(*decision, *quote)
                &&& p.client_order_id@ == client_order_id_for(p.execution_id)
                &&& p.created_at == quote.observed_at
                &&& p.risk_increasing == (decision.action == TradeAction::Buy)
                &&& p.protective == intent.protective
            },
    {
        match decision.validate() {
            Err(e) => return Err(ExecutionError::InvalidPlan(e.message())),
            Ok(()) => {},
        }
        if !risk.is_approved() {
            return Err(ExecutionError::RiskNotApproved);
        }
        let intent = match &risk.approved_intent {
            Some(i) => i,
            None => return Err(ExecutionError::RiskNotApproved),
        };
        if !intent.instrument.same_as(&decision.instrument) || !quote.instrument.same_as(&decision.instrument) {
            return Err(ExecutionError::RiskPlanMismatch);
        }
        let order_type = if decision.urgency == Urgency::High {
            match quote_spread_bps(quote) {
                Some(spread) => {
                    if self.max_market_spread_bps.lt(&spread) {
                        return Err(ExecutionError::PriceConstraint);
                    }
                },
                None => return Err(ExecutionError::PriceConstraint),
            }
            let below_ask = match decision.max_acceptable_price {
                Some(price) => price.lt(&quote.ask),
                None => false,
            };
            if decision.action == TradeAction::Buy && below_ask {
                return Err(ExecutionError::PriceConstraint);
            }
            PlannedOrderType::Market
        } else {
            if decision.action == TradeAction::Hold {
                return Err(ExecutionError::RiskNotApproved);
            }
            let price = match decision.max_acceptable_price {
                Some(p) => p,
                None => if decision.action == TradeAction::Buy { quote.ask } else { quote.bid },
            };
            PlannedOrderType::Limit { price }
        };
        let size = if intent.action == TradeAction::Buy && intent.notional.is_some() {
            PlannedSize::Notional(intent.notional.unwrap())
        } else if intent.action == TradeAction::Sell && intent.quantity.is_some() {
            PlannedSize::Quantity(intent.quantity.unwrap())
        } else {
            return Err(ExecutionError::InvalidPlan(String::from_str("approved size is missing")));
        };
        let execution_id = new_uuid_v4();
        let hex = hex_text(execution_id, 32);
        let client_order_id = concat("pt-", hex.as_str());
        Ok(ExecutionPlan {
            execution_id,
            decision_id: decision.decision_id,
            risk_decision_id: risk.risk_decision_id,
            instrument: decision.instrument.clone(),
            action: decision.action,
            operating_mode: intent.operating_mode,
            size,
            order_type,
            client_order_id,
            created_at: quote.observed_at,
            risk_increasing: decision.action == TradeAction::Buy,
            protective: intent.protective,
        })
    }
}

/// The quote's spread in basis points of the ask, `None` where the decimal
/// arithmetic overflows.
pub fn quote_spread_bps(quote: &MarketQuote) -> (s: Option<Dec>)
    ensures
        s matches Some(v) ==> spread_bps(*quote) == Some(v@),
        s is None ==> spread_bps(*quote) is None,
{
    let diff = match quote.ask.checked_sub(&quote.bid) {
        Some(d) => d,
        None => return None,
    };
    let bps = Dec::from_i64(10_000);
    let scaled = match diff.checked_mul(&bps) {
        Some(x) => x,
        None => return None,
    };
    scaled.checked_div(&quote.ask)
}

/// The simulation request an execution plan stands for.
pub open spec fn simulation_request(plan: ExecutionPlan, at: Timestamp) -> ExecutionRequest {
    ExecutionRequest {
        instrument: plan.instrument,
        action: plan.action,
        size: match plan.size {
            PlannedSize::Quantity(q) => OrderSize::Quantity(q),
            PlannedSize::Notional(n) => OrderSize::Notional(n),
        },
        order_type: match plan.order_type {
            PlannedOrderType::Market => SimOrderType::Market,
            PlannedOrderType::Limit { price } => SimOrderType::Limit { price },
        },
        submitted_at: at,
    }
}

/// Carries execution plans out against the synthetic simulation engine.
pub struct SimulationExecutor {
    engine: SimulationEngine,
}

impl SimulationExecutor {
    pub closed spec fn spec_engine(&self) -> SimulationEngine {
        self.engine
    }

    pub fn new(engine: SimulationEngine) -> (s: SimulationExecutor)
        ensures
            s.spec_engine() == engine,
    {
        SimulationExecutor { engine }
    }

    pub fn engine(&self) -> (e: &SimulationEngine)
        ensures
            *e == self.spec_engine(),
    {
        &self.engine
    }

    pub fn engine_mut(&mut self) -> (e: &mut SimulationEngine)
        ensures
            *e == old(self).spec_engine(),
            final(self).spec_engine() == *final(e),
    {
        &mut self.engine
    }

    /// Submits the plan to the engine as a market or limit request stamped
    /// with the snapshot's time.
    pub fn execute(&mut self, plan: &ExecutionPlan, snapshot: MarketSnapshot) -> (r: Result<ExecutionResult, SimulationError>)
        requires
            old(self).spec_engine().wf(),
        ensures
            final(self).spec_engine().wf(),
            request_fault(simulation_request(*plan, snapshot.timestamp)) matches Some(f) ==> r matches Err(e) && fault_is(f, e)
                && final(self).spec_engine() == old(self).spec_engine(),
            r is Ok ==> final(self).spec_engine().spec_orders().last().request == simulation_request(*plan, snapshot.timestamp)
                && final(self).spec_engine().spec_orders().len() == old(self).spec_engine().spec_orders().len() + 1,
    {
        let size = match plan.size {
            PlannedSize::Quantity(value) => OrderSize::Quantity(value),
            PlannedSize::Notional(value) => OrderSize::Notional(value),
        };
        let at = snapshot.timestamp;
        let request = match plan.order_type {
            PlannedOrderType::Market => ExecutionRequest::market(plan.instrument.clone(), plan.action, size, at),
            PlannedOrderType::Limit { price } => ExecutionRequest::limit(plan.instrument.clone(), plan.action, size, price, at),
        };
        self.engine.execute(request, snapshot)
    }
}

} // verus!
