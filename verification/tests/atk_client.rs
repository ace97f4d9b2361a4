use prooftrade::atk::client::{cancellation_from_reply, placement_from_reply, AtkClient, McpTransport};
use prooftrade::atk::error::{AtkError, McpError};
use prooftrade::atk::json::Json;
use prooftrade::atk::orders::{CancellationOutcome, PlacementOutcome};
use prooftrade::atk::AtkConfig;

struct DeadTransport;

impl McpTransport for DeadTransport {
    fn request(&self, _method: &str, _params: Json, _timeout: u64) -> Result<Json, McpError> {
        panic!("a dead transport is never asked")
    }

    fn notify(&self, _method: &str, _params: Json) -> Result<(), McpError> {
        panic!("a dead transport is never told")
    }

    fn is_alive(&self) -> bool {
        false
    }

    fn shutdown(&self) -> Result<(), McpError> {
        Ok(())
    }
}

fn text(s: &str) -> Json {
    Json::Text(s.to_owned())
}

fn object(entries: Vec<(&str, Json)>) -> Json {
    Json::Object(entries.into_iter().map(|(k, v)| (k.to_owned(), v)).collect())
}

fn timeout() -> AtkError {
    AtkError::Transport(McpError::RequestTimeout { method: "tools/call".to_owned() })
}

#[test]
fn dead_transport_is_refused_as_unavailable() {
    let config = AtkConfig::new("okx-trade-mcp".to_owned());
    match AtkClient::connect(DeadTransport, config, false) {
        Err(AtkError::Unavailable(m)) => assert_eq!(m, "MCP process is not alive"),
        _ => panic!("expected the client to be unavailable"),
    }
}

#[test]
fn timed_out_cancellation_is_unknown() {
    let outcome = cancellation_from_reply("pt-1".to_owned(), Err(timeout()));
    assert_eq!(
        outcome,
        CancellationOutcome::Unknown { client_order_id: "pt-1".to_owned(), reason: "request timeout".to_owned() }
    );
}

#[test]
fn timed_out_placement_is_unknown() {
    let outcome = placement_from_reply("pt-2".to_owned(), Err(timeout()));
    assert_eq!(
        outcome,
        PlacementOutcome::Unknown { client_order_id: "pt-2".to_owned(), reason: "request timeout".to_owned() }
    );
}

#[test]
fn exited_process_and_protocol_faults_are_unknown() {
    let exited = cancellation_from_reply("pt-1".to_owned(), Err(AtkError::Transport(McpError::ProcessExited)));
    assert_eq!(
        exited,
        CancellationOutcome::Unknown { client_order_id: "pt-1".to_owned(), reason: "process exited".to_owned() }
    );
    let invalid = placement_from_reply("pt-2".to_owned(), Err(AtkError::ResponseInvalid("x".to_owned())));
    assert_eq!(
        invalid,
        PlacementOutcome::Unknown { client_order_id: "pt-2".to_owned(), reason: "invalid MCP response".to_owned() }
    );
    let other = placement_from_reply(
        "pt-2".to_owned(),
        Err(AtkError::Transport(McpError::Io("broken pipe".to_owned()))),
    );
    match other {
        PlacementOutcome::Unknown { client_order_id, reason } => {
            assert_eq!(client_order_id, "pt-2");
            assert!(reason.starts_with("ambiguous mutation: "));
        },
        _ => panic!("expected an unknown placement"),
    }
}

#[test]
fn tool_refusal_is_a_rejection() {
    let outcome = cancellation_from_reply("pt-1".to_owned(), Ok(Err(("51400".to_owned(), "order does not exist".to_owned()))));
    assert_eq!(
        outcome,
        CancellationOutcome::Rejected { code: "51400".to_owned(), message: "order does not exist".to_owned() }
    );
    let placed = placement_from_reply("pt-2".to_owned(), Ok(Err(("51008".to_owned(), "insufficient balance".to_owned()))));
    assert_eq!(
        placed,
        PlacementOutcome::Rejected { code: "51008".to_owned(), message: "insufficient balance".to_owned() }
    );
}

#[test]
fn readable_answers_are_confirmed() {
    let record = object(vec![("ordId", text("123")), ("clOrdId", text("pt-1")), ("sCode", text("0"))]);
    let payload = object(vec![("data", Json::Array(vec![record]))]);
    let outcome = cancellation_from_reply("pt-1".to_owned(), Ok(Ok(payload)));
    assert_eq!(
        outcome,
        CancellationOutcome::Confirmed { order_id: "123".to_owned(), client_order_id: "pt-1".to_owned() }
    );
    let record = object(vec![("ordId", text("456")), ("clOrdId", text("pt-2")), ("sCode", text("0"))]);
    let payload = object(vec![("data", Json::Array(vec![record]))]);
    let placed = placement_from_reply("pt-2".to_owned(), Ok(Ok(payload)));
    assert_eq!(placed, PlacementOutcome::Confirmed { order_id: "456".to_owned(), client_order_id: "pt-2".to_owned() });
}

#[test]
fn unreadable_answers_are_unknown() {
    let outcome = cancellation_from_reply("pt-1".to_owned(), Ok(Ok(object(vec![]))));
    assert_eq!(
        outcome,
        CancellationOutcome::Unknown {
            client_order_id: "pt-1".to_owned(),
            reason: "invalid cancellation response: ATK tool response is invalid: tool data is missing".to_owned(),
        }
    );
    let record = object(vec![("clOrdId", text("pt-2")), ("sCode", text("0"))]);
    let payload = object(vec![("data", Json::Array(vec![record]))]);
    match placement_from_reply("pt-2".to_owned(), Ok(Ok(payload))) {
        PlacementOutcome::Unknown { client_order_id, reason } => {
            assert_eq!(client_order_id, "pt-2");
            assert!(reason.starts_with("invalid placement response: "));
            assert!(reason.ends_with("placement ordId is missing"));
        },
        _ => panic!("expected an unknown placement"),
    }
}

#[test]
fn start_refuses_a_transport_reported_dead() {
    let config = AtkConfig::new("okx-trade-mcp".to_owned());
    match AtkClient::start(DeadTransport, config, false) {
        Err(AtkError::Unavailable(m)) => assert_eq!(m, "MCP process is not alive"),
        _ => panic!("expected the client to be unavailable"),
    }
}
