use prooftrade::agent_contract::{AgentToolCall, AgentToolError};
use prooftrade::agent_tools::{submit_decision, tool_answer, uuid_string};
use prooftrade::atk::json::Json;
use prooftrade::dec::Dec;
use prooftrade::domain::decisions::{TradeAction, Urgency};
use prooftrade::domain::universe::TradingUniverse;
use prooftrade::hermes::{HermesError, RawHermesDecision};
use prooftrade::operator_model::OperatorReadModel;
use prooftrade::timestamp::Timestamp;

fn hold(request_id: &str) -> RawHermesDecision {
    RawHermesDecision {
        schema_version: 1,
        profile: "prooftrade-agent".to_owned(),
        request_id: request_id.to_owned(),
        run_id: "run-1".to_owned(),
        emitted_at: Timestamp::from_unix_timestamp(1_700_000_000),
        decision_id: 0x0123_4567_89ab_cdef_0123_4567_89ab_cdef,
        instrument: "BTC-USDT".to_owned(),
        action: TradeAction::Hold,
        confidence: Dec::new(5, 1),
        support_strength: Dec::new(2, 1),
        counter_signal_strength: Dec::new(7, 1),
        expected_horizon_secs: None,
        desired_exposure_pct: None,
        requested_notional: None,
        desired_reduction_pct: None,
        urgency: Urgency::Low,
        max_acceptable_price: None,
        why_trade: vec![],
        why_not_trade: vec!["no edge".to_owned()],
        reconsider_if: vec![],
        invalidation: None,
        evidence_refs: vec![],
        created_at: Timestamp::from_unix_timestamp(1_700_000_000),
    }
}

fn member<'a>(v: &'a Json, key: &str) -> &'a Json {
    v.get(key).expect("member present")
}

fn text_of(v: &Json) -> &str {
    match v {
        Json::Text(t) => t.as_str(),
        _ => panic!("expected text"),
    }
}

#[test]
fn uuids_are_written_hyphenated() {
    assert_eq!(uuid_string(0x0123_4567_89ab_cdef_0123_4567_89ab_cdef), "01234567-89ab-cdef-0123-456789abcdef");
    assert_eq!(uuid_string(1), "00000000-0000-0000-0000-000000000001");
}

#[test]
fn accepted_submission_is_a_proposed_intent() {
    let universe = TradingUniverse::initial();
    let answer = submit_decision(&universe, hold("req-1"), "req-1".to_owned()).expect("accepted");
    assert_eq!(text_of(member(&answer, "status")), "PROPOSED_INTENT");
    assert_eq!(text_of(member(&answer, "risk_evaluation")), "required_before_execution");
    assert!(matches!(member(&answer, "exchange_mutation"), Json::Bool(false)));
    let decision = member(&answer, "decision");
    assert_eq!(text_of(member(decision, "decision_id")), "01234567-89ab-cdef-0123-456789abcdef");
    assert_eq!(text_of(member(decision, "instrument")), "BTC-USDT");
    assert_eq!(text_of(member(decision, "action")), "HOLD");
    assert_eq!(text_of(member(decision, "confidence")), "0.5");
    assert_eq!(text_of(member(decision, "urgency")), "LOW");
    let provenance = member(&answer, "provenance");
    assert_eq!(text_of(member(provenance, "request_id")), "req-1");
    assert_eq!(text_of(member(provenance, "run_id")), "run-1");
    assert_eq!(text_of(member(provenance, "profile")), "prooftrade-agent");
    match member(provenance, "emitted_at") {
        Json::Number(n) => assert_eq!(n.int, Some(1_700_000_000)),
        _ => panic!("emission time is a number"),
    }
}

#[test]
fn submission_for_another_request_is_rejected() {
    let universe = TradingUniverse::initial();
    match submit_decision(&universe, hold("req-1"), "req-2".to_owned()) {
        Err(AgentToolError::DecisionRejected(HermesError::InvalidField { field, reason })) => {
            assert_eq!(field, "request_id");
            assert_eq!(reason, "does not match the active Hermes request");
        },
        _ => panic!("expected a rejected decision"),
    }
}

#[test]
fn hold_without_reason_is_rejected() {
    let universe = TradingUniverse::initial();
    let mut raw = hold("req-1");
    raw.why_not_trade = vec![" ".to_owned()];
    assert!(matches!(
        submit_decision(&universe, raw, "req-1".to_owned()),
        Err(AgentToolError::DecisionRejected(HermesError::DomainValidation(_)))
    ));
}

#[test]
fn read_tools_answer_from_the_model() {
    let universe = TradingUniverse::initial();
    let model = OperatorReadModel::new();
    let market = tool_answer(&universe, &model, AgentToolCall::MarketState, None).unwrap();
    assert_eq!(text_of(member(&market, "status")), "unavailable");
    assert_eq!(text_of(member(&market, "environment")), "SIMULATION");
    let portfolio = tool_answer(&universe, &model, AgentToolCall::Portfolio, None).unwrap();
    assert_eq!(text_of(member(&portfolio, "safety_state")), "NORMAL");
    let asset = tool_answer(
        &universe,
        &model,
        AgentToolCall::InvestigateAsset { instrument: "BTC-USDT".to_owned(), limit: 5 },
        None,
    )
    .unwrap();
    assert_eq!(text_of(member(&asset, "status")), "no_cached_evidence");
    assert!(matches!(member(&asset, "network_access"), Json::Bool(false)));
    let ranked = tool_answer(&universe, &model, AgentToolCall::RankedEvidence { limit: 3 }, None).unwrap();
    match member(&ranked, "signals") {
        Json::Array(items) => assert!(items.is_empty()),
        _ => panic!("signals are a list"),
    }
    let outcome = tool_answer(&universe, &model, AgentToolCall::DecisionOutcome, None).unwrap();
    assert!(matches!(member(&outcome, "warning"), Json::Null));
}

#[test]
fn submission_tool_validates_the_decoded_decision() {
    let universe = TradingUniverse::initial();
    let model = OperatorReadModel::new();
    let call = AgentToolCall::SubmitTradeDecision { payload: Json::Null, request_id: "req-1".to_owned() };
    let answer = tool_answer(&universe, &model, call, Some(hold("req-1"))).unwrap();
    assert_eq!(text_of(member(&answer, "status")), "PROPOSED_INTENT");
}
