use prooftrade::atk::json::{Json, JsonNumber};
use prooftrade::cli::{
    agent_method, check_simulation_flags, flag_value, is_loopback_bind, method_not_found, rpc_reply, tool_call_result,
    tools_list_result, AgentMcpMethod,
};
use prooftrade::dec::Dec;
use prooftrade::domain::decisions::TradeDecision;
use prooftrade::domain::instrument::Instrument;
use prooftrade::execution::{
    ExecutionError, ExecutionGateway, ExecutionPlan, ExecutionPolicy, ExecutionReceipt, ExecutionState, GatewayOrderStatus,
    GatewayPlacement, MarketQuote,
};
use prooftrade::ids::DecisionId;
use prooftrade::redaction::sanitize_payload;
use prooftrade::risk::{fail_closed, AccountState, OperatingMode, RiskConfig, RiskDecision, RiskOutcome, RiskSnapshot, SafetyState, SafetyStateStore};
use prooftrade::runtime::{RuntimeCoordinator, RuntimeObserver, RuntimeOutcome};
use prooftrade::timestamp::Timestamp;

fn args(items: &[&str]) -> Vec<String> {
    items.iter().map(|s| s.to_string()).collect()
}

#[test]
fn flags_are_read_from_arguments() {
    let a = args(&["--db", "x.sqlite", "--once"]);
    assert_eq!(flag_value(&a, "--db").unwrap(), "x.sqlite");
    assert_eq!(flag_value(&a, "--once"), None);
    assert_eq!(flag_value(&a, "--bind"), None);
    assert!(check_simulation_flags(&args(&["--cash", "30"])).is_ok());
    assert_eq!(
        check_simulation_flags(&args(&["--cash", "50"])).unwrap_err(),
        "the canonical demo scenario uses exactly 30 USDT of synthetic cash"
    );
    assert_eq!(
        check_simulation_flags(&args(&["--scenario", "moon"])).unwrap_err(),
        "unknown scenario; use btc-entry-and-hard-take-profit"
    );
}

#[test]
fn operator_binds_only_to_loopback() {
    assert!(is_loopback_bind("127.0.0.1:8787"));
    assert!(is_loopback_bind("[::1]:3030"));
    assert!(!is_loopback_bind("0.0.0.0:8787"));
    assert!(!is_loopback_bind("127.0.0.2:8787"));
}

#[test]
fn agent_mcp_methods_and_replies() {
    assert_eq!(agent_method("tools/call"), AgentMcpMethod::ToolsCall);
    assert_eq!(agent_method("notifications/initialized"), AgentMcpMethod::Initialized);
    assert_eq!(agent_method("resources/list"), AgentMcpMethod::Unknown);
    let id = Json::Number(JsonNumber { text: "4".to_string(), int: Some(4) });
    assert_eq!(method_not_found(Json::Null).render(), "{\"jsonrpc\":\"2.0\",\"id\":null,\"error\":{\"code\":-32601,\"message\":\"method not found\"}}");
    assert_eq!(
        rpc_reply(id, tool_call_result("done".to_string(), false)).render(),
        "{\"jsonrpc\":\"2.0\",\"id\":4,\"result\":{\"content\":[{\"type\":\"text\",\"text\":\"done\"}],\"isError\":false}}"
    );
    assert_eq!(tools_list_result(vec![]).render(), "{\"tools\":[]}");
}

#[test]
fn redaction_drops_credentials_at_every_depth() {
    let t = |s: &str| Json::Text(s.to_string());
    let payload = Json::Object(vec![
        ("API_KEY".to_string(), t("k")),
        ("note".to_string(), t("ok")),
        (
            "nested".to_string(),
            Json::Array(vec![Json::Object(vec![("pass-phrase".to_string(), t("p")), ("price".to_string(), t("1"))])]),
        ),
        ("Bearer Token".to_string(), t("b")),
    ]);
    let clean = sanitize_payload(payload);
    assert_eq!(clean.render(), "{\"note\":\"ok\",\"nested\":[{\"price\":\"1\"}]}");
    assert!(matches!(sanitize_payload(Json::Bool(true)), Json::Bool(true)));
}

struct InstantGateway {
    placed: usize,
}

impl ExecutionGateway for InstantGateway {
    fn place(&mut self, _plan: &ExecutionPlan) -> GatewayPlacement {
        self.placed += 1;
        GatewayPlacement::Acknowledged { exchange_order_id: "ex-1".to_string() }
    }

    fn query(&mut self, _instrument: &Instrument, _client_order_id: &str) -> Result<GatewayOrderStatus, ExecutionError> {
        Ok(GatewayOrderStatus::filled(Dec::from_i64(1), Dec::from_i64(100)))
    }

    fn cancel(&mut self, _instrument: &Instrument, _client_order_id: &str) -> GatewayPlacement {
        GatewayPlacement::Unknown { reason: "not supported".to_string() }
    }

    fn is_available(&self) -> bool {
        true
    }

    fn operating_mode(&self) -> OperatingMode {
        OperatingMode::Simulation
    }
}

#[derive(Default)]
struct Steps(Vec<&'static str>);

impl RuntimeObserver for Steps {
    fn risk_evaluated(&mut self, _risk: &RiskDecision) -> Result<(), String> {
        self.0.push("risk");
        Ok(())
    }

    fn execution_planned(&mut self, _plan: &ExecutionPlan) -> Result<(), String> {
        self.0.push("planned");
        Ok(())
    }

    fn execution_failed(&mut self, _plan: &ExecutionPlan, _error: &ExecutionError) -> Result<(), String> {
        self.0.push("failed");
        Ok(())
    }

    fn execution_updated(&mut self, _plan: &ExecutionPlan, _receipt: &ExecutionReceipt) -> Result<(), String> {
        self.0.push("updated");
        Ok(())
    }
}

fn fixture() -> (TradeDecision, RiskSnapshot, MarketQuote) {
    let at = Timestamp { unix_seconds: 1_700_000_000, nanosecond: 0 };
    let btc = Instrument::parse("BTC-USDT").unwrap();
    let decision = TradeDecision::buy(DecisionId::from_uuid(9), btc.clone(), at, Dec::from_i64(10), Dec::new(33, 2));
    let account = AccountState::new(Dec::from_i64(30), Dec::from_i64(30), Dec::from_i64(30)).unwrap();
    let snapshot = RiskSnapshot::new(at, account, vec![], OperatingMode::Simulation, SafetyState::Normal).unwrap();
    let quote = MarketQuote::new(btc, at, Dec::from_i64(99), Dec::from_i64(100)).unwrap();
    (decision, snapshot, quote)
}

#[test]
fn approved_intent_is_planned_and_executed() {
    let (decision, snapshot, quote) = fixture();
    let mut runtime = RuntimeCoordinator::new(RiskConfig::default(), ExecutionPolicy::default(), InstantGateway { placed: 0 });
    let mut steps = Steps::default();
    match runtime.process_with_projection(decision, snapshot, quote, &mut steps).unwrap() {
        RuntimeOutcome::Executed { risk, plan, receipt } => {
            assert!(risk.is_approved());
            assert_eq!(plan.risk_decision_id, risk.risk_decision_id);
            assert_eq!(receipt.execution_id, plan.execution_id);
            assert_eq!(receipt.state, ExecutionState::Acknowledged);
        },
        other => panic!("unexpected {other:?}"),
    }
    assert_eq!(steps.0, vec!["risk", "planned", "updated"]);
}

#[test]
fn killed_runtime_never_executes() {
    let (decision, snapshot, quote) = fixture();
    let store = SafetyStateStore::new(SafetyState::Killed);
    let mut runtime = RuntimeCoordinator::with_safety_state_store(
        RiskConfig::default(),
        ExecutionPolicy::default(),
        InstantGateway { placed: 0 },
        store,
    );
    match runtime.process(decision, snapshot, quote).unwrap() {
        RuntimeOutcome::Rejected { risk } => assert_eq!(risk.outcome, RiskOutcome::Rejected),
        other => panic!("unexpected {other:?}"),
    }
}

#[test]
fn unreadable_safety_state_fails_closed() {
    assert_eq!(fail_closed(None), SafetyState::Killed);
    assert_eq!(fail_closed(Some(SafetyState::Normal)), SafetyState::Normal);
    assert_eq!(fail_closed(Some(SafetyState::Safe)), SafetyState::Safe);
    let store = SafetyStateStore::new(SafetyState::Normal);
    assert_eq!(store.state(), SafetyState::Normal);
    assert!(store.set(SafetyState::Safe).is_ok());
    assert_eq!(store.state(), SafetyState::Safe);
}
