//! The deterministic simulation demo: one BTC entry and its hard take-profit
//! exit, computed from fixed fixtures. It stops at the synthetic execution
//! boundary: no kit client, no agent, no credentials, no network.

use vstd::prelude::*;

use crate::dec::{decimal_add, decimal_mul, decimal_sub, Dec};
use crate::domain::decisions::{TradeAction, TradeDecision, Urgency};
use crate::domain::instrument::Instrument;
use crate::execution::{ExecutionError, ExecutionPlan, ExecutionPolicy, ExecutionReceipt, ExecutionState, MarketQuote, SimulationExecutor};
use crate::ids::DecisionId;
use crate::reporting::{ReportBuilder, SimulationReport};
use crate::risk::{is_approved_outcome, AccountState, OperatingMode, RiskConfig, RiskDecision, RiskEngine, RiskError, RiskReasonCode, RiskSnapshot, SafetyState};
use crate::simulation::{FeeModel, FillModel, MarketSnapshot, PortfolioSnapshot, SimulationConfig, SimulationError, SimulationFill, SlippageModel};
use crate::simulation::engine::SimulationEngine;
use crate::text::concat;
use crate::timestamp::Timestamp;
use crate::agent_tools::{count_json, entry, json_is_count, uuid_string, uuid_text};
use crate::agent_contract::json_is_text_value;
use crate::atk::json::Json;
use crate::dec::decimal_text;
use crate::operator_model::{project, OperatorEvent, OperatorReadModel};

verus! {

pub const DEMO_RUN_UUID: u128 = 0x50524f4f46545241444544454d4f3031u128;
pub const DEMO_DECISION_UUID: u128 = 0x50524f4f4654524144454445433031u128;
pub const DEMO_RISK_UUID: u128 = 0x50524f4f46545241444552534b303031u128;
pub const DEMO_EXECUTION_UUID: u128 = 0x50524f4f465452414445455845433031u128;
pub const DEMO_INITIAL_FILL_UUID: u128 = 0x50524f4f46545241444546494c4c3031u128;
pub const DEMO_PROTECTIVE_FILL_UUID: u128 = 0x50524f4f46545241444546494c4c3032u128;
pub const DEMO_SNAPSHOT_UUID: u128 = 0x50524f4f465452414445534e41503031u128;

/// The fixture's entry time, in seconds since the epoch.
pub const DEMO_ENTRY_SECONDS: i64 = 1_700_000_000i64;

/// The fixture's exit time, a minute later.
pub const DEMO_EXIT_SECONDS: i64 = 1_700_000_060i64;

#[derive(Debug)]
pub enum DemoError {
    Simulation(SimulationError),
    Execution(ExecutionError),
    Storage(String),
    Risk(RiskError),
    Serialization(String),
    Operator(String),
    Io(String),
}

/// What the demo computes: the decision and its risk approval, the plan,
/// both fills, the entry's receipt, the final portfolio and the report.
#[derive(Debug)]
pub struct DemoRun {
    pub instrument: Instrument,
    pub entry_time: Timestamp,
    pub exit_time: Timestamp,
    pub decision: TradeDecision,
    pub risk: RiskDecision,
    pub quote: MarketQuote,
    pub plan: ExecutionPlan,
    pub entry_fill: SimulationFill,
    pub entry_receipt: ExecutionReceipt,
    pub protective_fill: SimulationFill,
    pub portfolio: PortfolioSnapshot,
    pub pending_orders: usize,
    pub report: SimulationReport,
}

/// The receipt of a plan that filled in one fill: filled, nothing left, at
/// the fill's price.
pub open spec fn fill_receipt(plan: ExecutionPlan, fill: SimulationFill, r: ExecutionReceipt) -> bool {
    &&& r.execution_id == plan.execution_id
    &&& r.client_order_id@ == plan.client_order_id@
    &&& r.exchange_order_id is None
    &&& r.state == ExecutionState::Filled
    &&& r.filled_quantity == fill.quantity
    &&& r.remaining_quantity matches Some(x) && x@ == (0int, 0nat)
    &&& r.average_price == Some(fill.price)
}

pub fn receipt_from_fill(plan: &ExecutionPlan, fill: &SimulationFill) -> (r: ExecutionReceipt)
    ensures
        fill_receipt(*plan, *fill, r),
{
    ExecutionReceipt {
        execution_id: plan.execution_id,
        client_order_id: plan.client_order_id.clone(),
        exchange_order_id: None,
        state: ExecutionState::Filled,
        filled_quantity: fill.quantity,
        remaining_quantity: Some(Dec::zero()),
        average_price: Some(fill.price),
    }
}

/// The name `Debug` gives a reason code.
pub open spec fn reason_name(r: RiskReasonCode) -> Seq<char> {
    match r {
        RiskReasonCode::InsufficientFunds => "InsufficientFunds"@,
        RiskReasonCode::InsufficientInventory => "InsufficientInventory"@,
        RiskReasonCode::PositionLimitReached => "PositionLimitReached"@,
        RiskReasonCode::DecisionStale => "DecisionStale"@,
        RiskReasonCode::ExecutionStateUnknown => "ExecutionStateUnknown"@,
        RiskReasonCode::TradingKilled => "TradingKilled"@,
        RiskReasonCode::TradingSafeMode => "TradingSafeMode"@,
        RiskReasonCode::InvalidInstrument => "InvalidInstrument"@,
        RiskReasonCode::InvalidOrderIntent => "InvalidOrderIntent"@,
        RiskReasonCode::LiveExposureExceeded => "LiveExposureExceeded"@,
        RiskReasonCode::ConstraintApplied => "ConstraintApplied"@,
        RiskReasonCode::AddWithoutNewEvidence => "AddWithoutNewEvidence"@,
        RiskReasonCode::SessionLossExceeded => "SessionLossExceeded"@,
        RiskReasonCode::SessionDrawdownExceeded => "SessionDrawdownExceeded"@,
    }
}

fn reason_code_name(r: RiskReasonCode) -> (s: &'static str)
    ensures
        s@ == reason_name(r),
{
    match r {
        RiskReasonCode::InsufficientFunds => "InsufficientFunds",
        RiskReasonCode::InsufficientInventory => "InsufficientInventory",
        RiskReasonCode::PositionLimitReached => "PositionLimitReached",
        RiskReasonCode::DecisionStale => "DecisionStale",
        RiskReasonCode::ExecutionStateUnknown => "ExecutionStateUnknown",
        RiskReasonCode::TradingKilled => "TradingKilled",
        RiskReasonCode::TradingSafeMode => "TradingSafeMode",
        RiskReasonCode::InvalidInstrument => "InvalidInstrument",
        RiskReasonCode::InvalidOrderIntent => "InvalidOrderIntent",
        RiskReasonCode::LiveExposureExceeded => "LiveExposureExceeded",
        RiskReasonCode::ConstraintApplied => "ConstraintApplied",
        RiskReasonCode::AddWithoutNewEvidence => "AddWithoutNewEvidence",
        RiskReasonCode::SessionLossExceeded => "SessionLossExceeded",
        RiskReasonCode::SessionDrawdownExceeded => "SessionDrawdownExceeded",
    }
}

pub open spec fn reason_names(v: Seq<RiskReasonCode>) -> Seq<Seq<char>> {
    Seq::new(v.len(), |i: int| reason_name(v[i]))
}

/// The reasons as `{:?}` writes the list: `[A, B]`.
pub fn reasons_text(reasons: &Vec<RiskReasonCode>) -> (s: String)
    ensures
        s@ == "["@ + crate::text::joined(reason_names(reasons@), ", "@) + "]"@,
{
    let mut names: Vec<String> = Vec::new();
    let mut i: usize = 0;
    while i < reasons.len()
        invariant
            i <= reasons@.len(),
            crate::text::texts(names@) == reason_names(reasons@).take(i as int),
        decreases reasons.len() - i,
    {
        let ghost before = names@;
        let name = String::from_str(reason_code_name(reasons[i]));
        names.push(name);
        proof {
            assert(crate::text::texts(names@) =~= crate::text::texts(before).push(reason_name(reasons@[i as int])));
            assert(crate::text::texts(names@) =~= reason_names(reasons@).take(i + 1));
        }
        i = i + 1;
    }
    proof {
        assert(reason_names(reasons@).take(reasons@.len() as int) =~= reason_names(reasons@));
    }
    let joined = crate::text::join_strings(&names, ", ");
    let head = concat("[", joined.as_str());
    concat(head.as_str(), "]")
}

fn operator_error(message: &str) -> (e: DemoError)
    ensures
        e matches DemoError::Operator(m) && m@ == message@,
{
    DemoError::Operator(String::from_str(message))
}

/// The demo's first fill of a list of results, where one filled.
fn first_fill(results: &Vec<crate::simulation::ExecutionResult>) -> (r: Option<SimulationFill>)
    ensures
        r matches Some(f) ==> exists|i: int| 0 <= i < results@.len() && results@[i].fill == Some(f),
{
    let mut i: usize = 0;
    while i < results.len()
        invariant
            i <= results@.len(),
        decreases results.len() - i,
    {
        match &results[i].fill {
            Some(f) => {
                return Some(f.clone());
            },
            None => {},
        }
        i = i + 1;
    }
    None
}

/// The profit a full exit realizes: its proceeds less its fee less what
/// the position cost.
pub open spec fn exit_profit(fill: SimulationFill, average_entry_price: Dec) -> Option<crate::dec::DecView> {
    match decimal_sub(fill.gross_notional@, fill.fee@) {
        Some(net) => match decimal_mul(average_entry_price@, fill.quantity@) {
            Some(cost) => decimal_sub(net, cost),
            None => None,
        },
        None => None,
    }
}

/// Runs the fixture: a 10 USDT buy of BTC-USDT at 100 under the default
/// risk rules and execution policy, filled by a simulator that charges
/// 0.1% fees and 5 bps slippage, then a market move to 131 that trips the
/// take-profit exit. Arithmetic that overflows, or a fixture step that does
/// not happen as planned, is refused as an operator error.
pub fn simulate_demo_run() -> (r: Result<DemoRun, DemoError>)
    ensures
        r matches Ok(run) ==> {
            &&& run.instrument@ == "BTC-USDT"@
            &&& run.entry_time == Timestamp { unix_seconds: DEMO_ENTRY_SECONDS, nanosecond: 0 }
            &&& run.exit_time == Timestamp { unix_seconds: DEMO_EXIT_SECONDS, nanosecond: 0 }
            &&& run.decision.decision_id == DecisionId(DEMO_DECISION_UUID)
            &&& run.decision.action == TradeAction::Buy
            &&& run.decision.urgency == Urgency::High
            &&& run.decision.instrument@ == "BTC-USDT"@
            &&& run.risk.risk_decision_id == DEMO_RISK_UUID
            &&& is_approved_outcome(run.risk.outcome)
            &&& run.plan.execution_id == DEMO_EXECUTION_UUID
            &&& run.plan.client_order_id@ == "pt-demo-entry-0001"@
            &&& fill_receipt(run.plan, run.entry_fill, run.entry_receipt)
            &&& run.report.starting_equity@ == (30int, 0nat)
            &&& run.report.trade_count == 2
            &&& run.report.protective_exit_count == 1
            &&& run.report.ending_equity == run.portfolio.equity
        },
{
    let instrument = match Instrument::parse("BTC-USDT") {
        Ok(i) => i,
        Err(_) => {
            return Err(operator_error("invalid instrument"));
        },
    };
    let entry_time = Timestamp::from_unix_timestamp(DEMO_ENTRY_SECONDS);
    let exit_time = Timestamp::from_unix_timestamp(DEMO_EXIT_SECONDS);
    let initial_market = match MarketSnapshot::new(instrument.clone(), entry_time, Dec::from_i64(99), Dec::from_i64(100)) {
        Ok(m) => m,
        Err(e) => {
            return Err(DemoError::Simulation(e));
        },
    };
    let protective_market = match MarketSnapshot::new(instrument.clone(), exit_time, Dec::from_i64(131), Dec::from_i64(132)) {
        Ok(m) => m,
        Err(e) => {
            return Err(DemoError::Simulation(e));
        },
    };
    let mut decision = TradeDecision::buy(
        DecisionId::from_uuid(DEMO_DECISION_UUID),
        instrument.clone(),
        entry_time,
        Dec::from_i64(10),
        Dec::new(33, 2),
    );
    decision.urgency = Urgency::High;
    let account = match AccountState::new(Dec::from_i64(30), Dec::from_i64(30), Dec::from_i64(30)) {
        Ok(a) => a,
        Err(e) => {
            return Err(DemoError::Risk(e));
        },
    };
    let snapshot = match RiskSnapshot::new(entry_time, account, Vec::new(), OperatingMode::Simulation, SafetyState::Normal) {
        Ok(s) => s,
        Err(e) => {
            return Err(DemoError::Risk(e));
        },
    };
    let risk_config = RiskConfig::default();
    match snapshot.account.available_cash.checked_sub(&risk_config.minimum_cash_reserve) {
        Some(_) => {},
        None => {
            return Err(operator_error("cash reserve is out of range"));
        },
    }
    let mut risk = RiskEngine::new(risk_config).evaluate(&decision, &snapshot);
    risk.risk_decision_id = DEMO_RISK_UUID;
    if !risk.is_approved() {
        let reasons = reasons_text(&risk.reasons);
        return Err(DemoError::Operator(concat("deterministic demo intent was rejected: ", reasons.as_str())));
    }
    let quote = match MarketQuote::new(instrument.clone(), entry_time, Dec::from_i64(99), Dec::from_i64(100)) {
        Ok(q) => q,
        Err(e) => {
            return Err(DemoError::Execution(e));
        },
    };
    let mut plan = match ExecutionPolicy::default().plan(&risk, &decision, &quote) {
        Ok(p) => p,
        Err(e) => {
            return Err(DemoError::Execution(e));
        },
    };
    plan.execution_id = DEMO_EXECUTION_UUID;
    plan.client_order_id = String::from_str("pt-demo-entry-0001");
    let config = SimulationConfig::new(Dec::from_i64(30)).with_fee_model(FeeModel::FixedRate(Dec::new(1, 3))).with_slippage_model(
        SlippageModel::FixedBps(Dec::from_i64(5)),
    ).with_fill_model(FillModel::Full);
    let engine = match SimulationEngine::new(config) {
        Ok(e) => e,
        Err(e) => {
            return Err(DemoError::Simulation(e));
        },
    };
    let mut executor = SimulationExecutor::new(engine);
    let entry = match executor.execute(&plan, initial_market.clone()) {
        Ok(r) => r,
        Err(e) => {
            return Err(DemoError::Simulation(e));
        },
    };
    let entry_fill = match &entry.fill {
        Some(f) => f.clone(),
        None => {
            return Err(operator_error("entry fixture did not fill"));
        },
    };
    let entry_receipt = receipt_from_fill(&plan, &entry_fill);
    let entry_position = match executor.engine().position(&instrument) {
        Some(p) => p.clone(),
        None => {
            return Err(operator_error("entry fixture did not create inventory"));
        },
    };
    let mut report = ReportBuilder::new(Dec::from_i64(30));
    let entry_portfolio = match executor.engine().portfolio_snapshot() {
        Ok(p) => p,
        Err(e) => {
            return Err(DemoError::Simulation(e));
        },
    };
    if !report.try_record_equity(entry_portfolio.equity) || !report.try_record_trade(Dec::zero(), entry_fill.fee)
        || !report.try_record_slippage(entry_fill.slippage) {
        return Err(operator_error("demo report arithmetic overflowed"));
    }
    let protective = match executor.engine_mut().on_market_snapshot(protective_market) {
        Ok(r) => r,
        Err(e) => {
            return Err(DemoError::Simulation(e));
        },
    };
    let protective_fill = match first_fill(&protective) {
        Some(f) => f,
        None => {
            return Err(operator_error("protective fixture did not fill"));
        },
    };
    let realized = match protective_fill.gross_notional.checked_sub(&protective_fill.fee) {
        Some(net) => match entry_position.average_entry_price.checked_mul(&protective_fill.quantity) {
            Some(cost) => net.checked_sub(&cost),
            None => None,
        },
        None => None,
    };
    let realized = match realized {
        Some(r) => r,
        None => {
            return Err(operator_error("demo report arithmetic overflowed"));
        },
    };
    if !report.try_record_trade(realized, protective_fill.fee) || !report.try_record_slippage(protective_fill.slippage) {
        return Err(operator_error("demo report arithmetic overflowed"));
    }
    if report.protective_exit_count == usize::MAX {
        return Err(operator_error("demo report arithmetic overflowed"));
    }
    report.record_protective_exit();
    let portfolio = match executor.engine().portfolio_snapshot() {
        Ok(p) => p,
        Err(e) => {
            return Err(DemoError::Simulation(e));
        },
    };
    if !report.try_record_equity(portfolio.equity) {
        return Err(operator_error("demo report arithmetic overflowed"));
    }
    let final_report = match report.try_finish(portfolio.equity) {
        Some(r) => r,
        None => {
            return Err(operator_error("demo report arithmetic overflowed"));
        },
    };
    let pending_orders = executor.engine().pending_orders().len();
    Ok(DemoRun {
        instrument,
        entry_time,
        exit_time,
        decision,
        risk,
        quote,
        plan,
        entry_fill,
        entry_receipt,
        protective_fill,
        portfolio,
        pending_orders,
        report: final_report,
    })
}

pub const DEMO_SCENARIO: &'static str = "btc-entry-and-hard-take-profit";
pub const DEMO_FIXTURE_LABEL: &'static str = "deterministic-fixture";

/// What the demo hands back: the fixture it ran, in the simulated
/// environment, the identifiers of its run, decision, risk verdict and
/// execution, the operator view's revision after the run is projected, and
/// the report.
pub struct DemoReceipt {
    pub schema_version: u16,
    pub scenario: String,
    pub fixture_label: String,
    pub environment: String,
    pub run_id: String,
    pub decision_id: String,
    pub risk_decision_id: String,
    pub execution_id: String,
    pub operator_revision: u64,
    pub report: Json,
}

/// The report as the receipt carries it: decimals written out, counts as
/// numbers, in the report's field order.
pub open spec fn report_answer(r: SimulationReport, j: Json) -> bool {
    j matches Json::Object(m) && m@.len() == 12 && {
        &&& m@[0].0@ == "starting_equity"@ && json_is_text_value(m@[0].1, decimal_text(r.starting_equity@))
        &&& m@[1].0@ == "ending_equity"@ && json_is_text_value(m@[1].1, decimal_text(r.ending_equity@))
        &&& m@[2].0@ == "pnl"@ && json_is_text_value(m@[2].1, decimal_text(r.pnl@))
        &&& m@[3].0@ == "max_drawdown"@ && json_is_text_value(m@[3].1, decimal_text(r.max_drawdown@))
        &&& m@[4].0@ == "trade_count"@ && json_is_count(m@[4].1, r.trade_count as nat)
        &&& m@[5].0@ == "wins"@ && json_is_count(m@[5].1, r.wins as nat)
        &&& m@[6].0@ == "losses"@ && json_is_count(m@[6].1, r.losses as nat)
        &&& m@[7].0@ == "fees"@ && json_is_text_value(m@[7].1, decimal_text(r.fees@))
        &&& m@[8].0@ == "slippage"@ && json_is_text_value(m@[8].1, decimal_text(r.slippage@))
        &&& m@[9].0@ == "hold_count"@ && json_is_count(m@[9].1, r.hold_count as nat)
        &&& m@[10].0@ == "rejected_count"@ && json_is_count(m@[10].1, r.rejected_count as nat)
        &&& m@[11].0@ == "protective_exit_count"@ && json_is_count(m@[11].1, r.protective_exit_count as nat)
    }
}

pub fn report_json(r: &SimulationReport) -> (j: Json)
    ensures
        report_answer(*r, j),
{
    let mut m: Vec<(String, Json)> = Vec::new();
    m.push(entry("starting_equity", Json::Text(r.starting_equity.to_text())));
    m.push(entry("ending_equity", Json::Text(r.ending_equity.to_text())));
    m.push(entry("pnl", Json::Text(r.pnl.to_text())));
    m.push(entry("max_drawdown", Json::Text(r.max_drawdown.to_text())));
    m.push(entry("trade_count", count_json(r.trade_count)));
    m.push(entry("wins", count_json(r.wins)));
    m.push(entry("losses", count_json(r.losses)));
    m.push(entry("fees", Json::Text(r.fees.to_text())));
    m.push(entry("slippage", Json::Text(r.slippage.to_text())));
    m.push(entry("hold_count", count_json(r.hold_count)));
    m.push(entry("rejected_count", count_json(r.rejected_count)));
    m.push(entry("protective_exit_count", count_json(r.protective_exit_count)));
    proof {
        reveal_strlit("starting_equity");
        reveal_strlit("ending_equity");
        reveal_strlit("pnl");
        reveal_strlit("max_drawdown");
        reveal_strlit("trade_count");
        reveal_strlit("wins");
        reveal_strlit("losses");
        reveal_strlit("fees");
        reveal_strlit("slippage");
        reveal_strlit("hold_count");
        reveal_strlit("rejected_count");
        reveal_strlit("protective_exit_count");
    }
    Json::Object(m)
}

/// The receipt of a demo run. The operator view starts empty and sees the
/// run start, the entry's execution and the run's completion, so its
/// revision is three.
pub fn demo_receipt(run: &DemoRun) -> (r: DemoReceipt)
    ensures
        r.schema_version == 1,
        r.scenario@ == DEMO_SCENARIO@,
        r.fixture_label@ == DEMO_FIXTURE_LABEL@,
        r.environment@ == "SIMULATION"@,
        r.run_id@ == uuid_text(DEMO_RUN_UUID),
        r.decision_id@ == uuid_text(run.decision.decision_id.0),
        r.risk_decision_id@ == uuid_text(run.risk.risk_decision_id),
        r.execution_id@ == uuid_text(run.plan.execution_id),
        r.operator_revision == 3,
        report_answer(run.report, r.report),
{
    let run_id = uuid_string(DEMO_RUN_UUID);
    let model = project(
        OperatorReadModel::new(),
        OperatorEvent::RunStarted {
            run_id: run_id.clone(),
            cycle_id: String::from_str(DEMO_SCENARIO),
            mode: OperatingMode::Simulation,
            safety_state: SafetyState::Normal,
            at: run.entry_time,
        },
    );
    let model = project(model, OperatorEvent::ExecutionUpdated { receipt: run.entry_receipt.clone(), at: run.entry_time });
    let model = project(model, OperatorEvent::RunCompleted { at: run.exit_time });
    DemoReceipt {
        schema_version: 1,
        scenario: String::from_str(DEMO_SCENARIO),
        fixture_label: String::from_str(DEMO_FIXTURE_LABEL),
        environment: String::from_str("SIMULATION"),
        run_id,
        decision_id: uuid_string(run.decision.decision_id.0),
        risk_decision_id: uuid_string(run.risk.risk_decision_id),
        execution_id: uuid_string(run.plan.execution_id),
        operator_revision: model.revision,
        report: report_json(&run.report),
    }
}

} // verus!
