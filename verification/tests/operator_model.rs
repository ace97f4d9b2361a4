use prooftrade::atk::json::{decode_json, Json};
use prooftrade::domain::universe::TradingUniverse;
use prooftrade::intelligence::evidence::IntelligenceSource;
use prooftrade::intelligence::health::{SourceErrorCategory, SourceHealthStatus};
use prooftrade::operator::{OperatorAgentStatus, OperatorError, OperatorRunPhase, OperatorRunStatus};
use prooftrade::operator_model::{investigate_asset, investigate_event, kill, project, OperatorEvent, OperatorReadModel};
use prooftrade::risk::{OperatingMode, SafetyState, SafetyStateStore};
use prooftrade::timestamp::Timestamp;

fn at(seconds: i64) -> Timestamp {
    Timestamp::from_unix_timestamp(seconds)
}

fn started() -> OperatorReadModel {
    project(
        OperatorReadModel::new(),
        OperatorEvent::RunStarted {
            run_id: "run-1".to_string(),
            cycle_id: "cycle-1".to_string(),
            mode: OperatingMode::Demo,
            safety_state: SafetyState::Normal,
            at: at(100),
        },
    )
}

#[test]
fn run_start_resets_the_model() {
    let model = started();
    assert_eq!(model.environment, OperatingMode::Demo);
    assert_eq!(model.run.status, OperatorRunStatus::Running);
    assert_eq!(model.run.phase, OperatorRunPhase::Researching);
    assert_eq!(model.run.run_id.as_deref(), Some("run-1"));
    assert_eq!(model.agent.run_id.as_deref(), Some("run-1"));
    assert_eq!(model.agent.status, OperatorAgentStatus::Researching);
    assert_eq!(model.revision, 1);
    assert_eq!(model.updated_at, Some(at(100)));
    assert!(model.executions.is_empty() && model.sources.is_empty());
}

#[test]
fn run_failure_records_the_error() {
    let model = project(started(), OperatorEvent::RunFailed { error: "boom".to_string(), at: at(200) });
    assert_eq!(model.run.status, OperatorRunStatus::Failed);
    assert_eq!(model.run.error.as_deref(), Some("boom"));
    assert_eq!(model.agent.last_error.as_deref(), Some("boom"));
    assert_eq!(model.agent.status, OperatorAgentStatus::Degraded);
    assert_eq!(model.run.completed_at, Some(at(200)));
    assert_eq!(model.revision, 2);
}

#[test]
fn source_failure_updates_health_and_errors() {
    let model = project(
        started(),
        OperatorEvent::SourceFailed { source: IntelligenceSource::Reddit, category: SourceErrorCategory::Unavailable, at: at(150) },
    );
    assert_eq!(model.research.errors.len(), 1);
    assert_eq!(model.sources.len(), 1);
    assert_eq!(model.sources[0].status, SourceHealthStatus::Unavailable);
    assert_eq!(model.sources[0].consecutive_failures, 1);
    let again = project(
        model,
        OperatorEvent::SourceFailed { source: IntelligenceSource::Reddit, category: SourceErrorCategory::Disabled, at: at(160) },
    );
    assert_eq!(again.sources.len(), 1);
    assert_eq!(again.sources[0].status, SourceHealthStatus::Disabled);
    assert_eq!(again.sources[0].consecutive_failures, 2);
}

#[test]
fn decision_cycle_without_action_degrades_the_agent() {
    let model = project(
        started(),
        OperatorEvent::DecisionCycle {
            requests: Vec::new(),
            errors: Vec::new(),
            opportunities: Vec::new(),
            no_action_reason: Some("nothing to do".to_string()),
            proposal: None,
            at: at(170),
        },
    );
    assert_eq!(model.run.status, OperatorRunStatus::NoAction);
    assert_eq!(model.no_action_reason.as_deref(), Some("nothing to do"));
    assert_eq!(model.run.no_action_reason.as_deref(), Some("nothing to do"));
    assert_eq!(model.agent.status, OperatorAgentStatus::Degraded);
    assert_eq!(model.run.phase, OperatorRunPhase::Deciding);
}

#[test]
fn kill_needs_the_exact_confirmation() {
    let store = SafetyStateStore::new(SafetyState::Normal);
    let mut model = started();
    assert_eq!(kill(&mut model, &store, "kill"), Err(OperatorError::ConfirmationRequired));
    assert_eq!(model.safety_state, SafetyState::Normal);
    assert_eq!(model.revision, 1);
    assert_eq!(store.state(), SafetyState::Normal);
    assert_eq!(kill(&mut model, &store, "KILL"), Ok(SafetyState::Killed));
    assert_eq!(model.safety_state, SafetyState::Killed);
    assert_eq!(model.revision, 2);
    assert_eq!(store.state(), SafetyState::Killed);
}

#[test]
fn investigations_of_an_empty_cache_find_nothing() {
    let model = started();
    assert!(investigate_asset(&model, "BTC-USDT", 5).is_empty());
    assert!(investigate_event(&model, "fp", 5).is_empty());
}

#[test]
fn json_text_is_decoded() {
    match decode_json("{\"a\": [1, \"x\", true, null]}") {
        Ok(Json::Object(members)) => {
            assert_eq!(members.len(), 1);
            assert_eq!(members[0].0, "a");
            match &members[0].1 {
                Json::Array(items) => {
                    assert_eq!(items.len(), 4);
                    assert!(matches!(&items[0], Json::Number(n) if n.int == Some(1) && n.text == "1"));
                    assert!(matches!(&items[1], Json::Text(t) if t == "x"));
                    assert!(matches!(&items[2], Json::Bool(true)));
                    assert!(matches!(&items[3], Json::Null));
                },
                other => panic!("unexpected {other:?}"),
            }
        },
        other => panic!("unexpected {other:?}"),
    }
    assert!(decode_json("{not json").is_err());
}

#[test]
fn default_universe_is_the_initial_one() {
    let u = TradingUniverse::default();
    let symbols: Vec<&str> = u.instruments().iter().map(|i| i.symbol()).collect();
    assert_eq!(symbols, vec!["BTC-USDT", "ETH-USDT", "SOL-USDT", "HYPE-USDT"]);
    assert_eq!(u, TradingUniverse::initial());
    assert!(u.validate().is_ok());
}

#[test]
fn decision_schema_lists_required_fields() {
    let schema = prooftrade::agent_contract::strict_output_schema();
    let required = match schema.get("required") {
        Some(Json::Array(items)) => items
            .iter()
            .map(|i| match i {
                Json::Text(t) => t.clone(),
                other => panic!("unexpected {other:?}"),
            })
            .collect::<Vec<_>>(),
        other => panic!("unexpected {other:?}"),
    };
    assert_eq!(required.len(), 16);
    assert_eq!(required[0], "schema_version");
    assert_eq!(required[15], "created_at");
    assert!(matches!(schema.get("additionalProperties"), Some(Json::Bool(false))));
    match schema.get("properties") {
        Some(Json::Object(p)) => {
            assert_eq!(p.len(), 23);
            assert_eq!(p[6].0, "action");
        },
        other => panic!("unexpected {other:?}"),
    }
}
