use prooftrade::agent_contract::{
    bounded_limit, mcp_tool_definitions, required_string, tool_specs, AgentToolCall, AgentToolError, AgentToolRegistry,
    PROFILE_NAME, TOOL_CONTRACT_VERSION,
};
use prooftrade::atk::json::{Json, JsonNumber};
use prooftrade::dec::Dec;
use prooftrade::decision::orchestrator::ProposalKind;
use prooftrade::decision::ResearchBudget;
use prooftrade::demo::{demo_receipt, reasons_text, simulate_demo_run, DEMO_EXECUTION_UUID, DEMO_RISK_UUID};
use prooftrade::domain::decisions::{TradeAction, Urgency};
use prooftrade::domain::universe::TradingUniverse;
use prooftrade::execution::ExecutionState;
use prooftrade::intelligence::evidence::IntelligenceSource;
use prooftrade::intelligence::health::{SourceErrorCategory, SourceHealthStatus};
use prooftrade::operator::{
    environment_label, execution_phase, kill_confirmation, proposal_kind_label, route, safety_label, source_key,
    source_status_for_error, source_status_label, update_source_health, OperatorError, OperatorResearchBudget,
    OperatorResearchView, OperatorResponse, OperatorRoute, OperatorRunPhase, OperatorRunStatus,
};
use prooftrade::reporting::ReportBuilder;
use prooftrade::risk::{OperatingMode, RiskReasonCode, SafetyState};
use prooftrade::timestamp::Timestamp;

fn object(entries: Vec<(&str, Json)>) -> Json {
    Json::Object(entries.into_iter().map(|(k, v)| (k.to_string(), v)).collect())
}

fn jint(n: i64) -> Json {
    Json::Number(JsonNumber { text: n.to_string(), int: Some(n) })
}

fn registry() -> AgentToolRegistry<()> {
    AgentToolRegistry::new(TradingUniverse::initial(), ())
}

#[test]
fn agent_tools_are_listed_and_read_only() {
    assert_eq!(PROFILE_NAME, "prooftrade-agent");
    assert_eq!(TOOL_CONTRACT_VERSION, "prooftrade-agent-tools/v1");
    let specs = tool_specs();
    assert_eq!(specs.len(), 8);
    assert!(specs.iter().all(|s| !s.mutates_exchange));
    assert_eq!(specs[6].name, "submit_trade_decision");
    assert_eq!(specs[0].purpose, "read current OKX market state");
    let defs = mcp_tool_definitions();
    assert_eq!(defs.len(), 8);
    assert!(matches!(defs[3].get("name"), Some(Json::Text(n)) if n == "get_source_health"));
    assert!(matches!(defs[3].get("inputSchema").and_then(|s| s.get("additionalProperties")), Some(Json::Bool(true))));
    assert_eq!(registry().list().len(), 8);
}

#[test]
fn tool_limits_are_clamped() {
    assert_eq!(bounded_limit(&object(vec![])).unwrap(), 20);
    assert_eq!(bounded_limit(&object(vec![("limit", jint(0))])).unwrap(), 1);
    assert_eq!(bounded_limit(&object(vec![("limit", jint(7))])).unwrap(), 7);
    assert_eq!(bounded_limit(&object(vec![("limit", jint(5000))])).unwrap(), 100);
    assert_eq!(bounded_limit(&object(vec![("limit", jint(-3))])).unwrap(), 20);
    assert_eq!(bounded_limit(&object(vec![("limit", Json::Text("9".to_string()))])).unwrap(), 20);
}

#[test]
fn tool_calls_are_routed() {
    let r = registry();
    assert!(matches!(r.route("get_market_state", object(vec![])), Ok(AgentToolCall::MarketState)));
    assert!(matches!(r.route("get_ranked_evidence", object(vec![("limit", jint(3))])), Ok(AgentToolCall::RankedEvidence { limit: 3 })));
    match r.route("investigate_asset", object(vec![("instrument", Json::Text("BTC-USDT".to_string()))])) {
        Ok(AgentToolCall::InvestigateAsset { instrument, limit }) => {
            assert_eq!(instrument, "BTC-USDT");
            assert_eq!(limit, 20);
        },
        other => panic!("unexpected {other:?}"),
    }
    match r.route("investigate_event", object(vec![])) {
        Err(e) => assert_eq!(e.message(), "invalid tool arguments: event_fingerprint is required"),
        other => panic!("unexpected {other:?}"),
    }
    match r.route("submit_trade_decision", object(vec![("payload", object(vec![("request_id", Json::Text("req-1".to_string()))]))])) {
        Ok(AgentToolCall::SubmitTradeDecision { request_id, payload }) => {
            assert_eq!(request_id, "req-1");
            assert!(payload.get("request_id").is_some());
        },
        other => panic!("unexpected {other:?}"),
    }
    match r.route("place_order", object(vec![])) {
        Err(AgentToolError::UnknownTool(name)) => assert_eq!(name, "place_order"),
        other => panic!("unexpected {other:?}"),
    }
    let blank = object(vec![("request_id", Json::Text("  ".to_string()))]);
    assert!(matches!(r.route("submit_trade_decision", blank), Err(AgentToolError::InvalidArguments(m)) if m == "request_id is required"));
    assert!(required_string(&object(vec![("x", Json::Text(" a ".to_string()))]), "x").unwrap() == " a ");
}

#[test]
fn report_tracks_drawdown_trades_and_costs() {
    let mut report = ReportBuilder::new(Dec::from_i64(100));
    report.record_equity(Dec::from_i64(120));
    report.record_equity(Dec::from_i64(90));
    report.record_equity(Dec::from_i64(110));
    report.record_trade(Dec::from_i64(5), Dec::new(1, 1));
    report.record_trade(Dec::from_i64(-2), Dec::new(2, 1));
    report.record_trade(Dec::zero(), Dec::zero());
    report.record_slippage(Dec::new(5, 2));
    report.record_hold();
    report.record_rejection();
    report.record_protective_exit();
    let finished = report.finish(Dec::from_i64(110));
    assert_eq!(finished.max_drawdown.to_text(), "30");
    assert_eq!(finished.pnl.to_text(), "10");
    assert_eq!(finished.trade_count, 3);
    assert_eq!(finished.wins, 1);
    assert_eq!(finished.losses, 1);
    assert_eq!(finished.fees.to_text(), "0.3");
    assert_eq!(finished.slippage.to_text(), "0.05");
    assert_eq!(finished.hold_count, 1);
    assert_eq!(finished.rejected_count, 1);
    assert_eq!(finished.protective_exit_count, 1);
}

#[test]
fn demo_run_is_deterministic_and_simulated() {
    let run = simulate_demo_run().unwrap();
    assert_eq!(run.instrument.symbol(), "BTC-USDT");
    assert_eq!(run.decision.action, TradeAction::Buy);
    assert_eq!(run.decision.urgency, Urgency::High);
    assert_eq!(run.risk.risk_decision_id, DEMO_RISK_UUID);
    assert!(run.risk.is_approved());
    assert_eq!(run.plan.execution_id, DEMO_EXECUTION_UUID);
    assert_eq!(run.plan.client_order_id, "pt-demo-entry-0001");
    assert_eq!(run.entry_receipt.state, ExecutionState::Filled);
    assert_eq!(run.entry_receipt.filled_quantity, run.entry_fill.quantity);
    assert_eq!(run.report.starting_equity.to_text(), "30");
    assert_eq!(run.report.trade_count, 2);
    assert_eq!(run.report.protective_exit_count, 1);
    assert_eq!(run.protective_fill.action, TradeAction::Sell);
    assert_eq!(run.pending_orders, 0);
    let again = simulate_demo_run().unwrap();
    assert_eq!(again.report.ending_equity, run.report.ending_equity);
}

#[test]
fn simulation_demo_is_a_replayable_synthetic_run() {
    let run = simulate_demo_run().expect("demo should run");
    let receipt = demo_receipt(&run);

    assert_eq!(receipt.schema_version, 1);
    assert_eq!(receipt.environment, "SIMULATION");
    assert_eq!(receipt.fixture_label, "deterministic-fixture");
    assert_eq!(receipt.scenario, "btc-entry-and-hard-take-profit");
    assert!(receipt.operator_revision >= 1);
    assert_eq!(receipt.operator_revision, 3);
    assert_eq!(receipt.run_id, "50524f4f-4654-5241-4445-44454d4f3031");
    assert_eq!(receipt.execution_id, "50524f4f-4654-5241-4445-455845433031");
    match receipt.report.get("starting_equity") {
        Some(Json::Text(t)) => assert_eq!(t, "30"),
        _ => panic!("the report carries its starting equity"),
    }
    match receipt.report.get("trade_count") {
        Some(Json::Number(n)) => assert_eq!(n.int, Some(2)),
        _ => panic!("the report carries its trade count"),
    }
}

#[test]
fn rejection_reasons_are_listed_like_debug() {
    assert_eq!(reasons_text(&vec![]), "[]");
    assert_eq!(
        reasons_text(&vec![RiskReasonCode::InsufficientFunds, RiskReasonCode::TradingKilled]),
        "[InsufficientFunds, TradingKilled]"
    );
}

#[test]
fn operator_labels_and_routes() {
    assert_eq!(environment_label(OperatingMode::Simulation), "SIMULATION");
    assert_eq!(safety_label(SafetyState::Killed), "KILLED");
    assert_eq!(source_key(IntelligenceSource::MarxFinance), "marx_finance");
    assert_eq!(source_status_label(SourceHealthStatus::Degraded), "degraded");
    assert_eq!(proposal_kind_label(ProposalKind::Reduction), "reduction");
    assert_eq!(route("GET", "/"), OperatorRoute::Dashboard);
    assert_eq!(route("GET", "/api/read-model"), OperatorRoute::ReadModel);
    assert_eq!(route("POST", "/api/safety/kill"), OperatorRoute::Kill);
    assert_eq!(route("GET", "/api/safety/kill"), OperatorRoute::NotFound);
    assert_eq!(kill_confirmation("KILL"), Ok(()));
    assert_eq!(kill_confirmation("kill"), Err(OperatorError::ConfirmationRequired));
    assert_eq!(OperatorError::ConfirmationRequired.message(), "explicit KILL confirmation is required");
    assert_eq!(execution_phase(ExecutionState::Unknown), OperatorRunPhase::Reconciling);
    assert_eq!(execution_phase(ExecutionState::Filled), OperatorRunPhase::Executing);
    assert_eq!(OperatorRunStatus::default(), OperatorRunStatus::Idle);
    let response = OperatorResponse::json(404, "{}".to_string());
    assert_eq!(response.content_type, "application/json");
    assert_eq!(OperatorResponse::html(200, String::new()).content_type, "text/html; charset=utf-8");
    let view = OperatorResearchView::default();
    assert!(view.trigger.is_none() && !view.truncated);
    let budget = OperatorResearchBudget::from_budget(&ResearchBudget::default());
    assert_eq!(budget.max_source_calls, ResearchBudget::default().max_source_calls);
}

#[test]
fn source_health_follows_attempts() {
    assert_eq!(source_status_for_error(SourceErrorCategory::ProcessFailure), SourceHealthStatus::Unavailable);
    assert_eq!(source_status_for_error(SourceErrorCategory::Disabled), SourceHealthStatus::Disabled);
    assert_eq!(source_status_for_error(SourceErrorCategory::Timeout), SourceHealthStatus::Degraded);
    let t1 = Timestamp { unix_seconds: 100, nanosecond: 0 };
    let t2 = Timestamp { unix_seconds: 200, nanosecond: 0 };
    let mut sources = Vec::new();
    update_source_health(&mut sources, IntelligenceSource::Reddit, SourceHealthStatus::Degraded, Some(SourceErrorCategory::Timeout), t1, &vec![]);
    assert_eq!(sources.len(), 1);
    assert_eq!(sources[0].consecutive_failures, 1);
    assert_eq!(sources[0].last_success, None);
    update_source_health(&mut sources, IntelligenceSource::Reddit, SourceHealthStatus::Degraded, Some(SourceErrorCategory::Timeout), t2, &vec![]);
    assert_eq!(sources[0].consecutive_failures, 2);
    update_source_health(&mut sources, IntelligenceSource::Reddit, SourceHealthStatus::Healthy, None, t2, &vec![]);
    assert_eq!(sources.len(), 1);
    assert_eq!(sources[0].consecutive_failures, 0);
    assert_eq!(sources[0].last_success, Some(t2));
    assert_eq!(sources[0].last_attempt, Some(t2));
}

