//! The reviewable tool contract of the `prooftrade-agent` profile: which
//! tools the agent may call, and how a call's name and arguments are read.
//! No tool mutates the exchange.

use vstd::prelude::*;

use crate::atk::json::{json_get, text_of, Json, JsonNumber};
use crate::domain::universe::TradingUniverse;
use crate::hermes::{hermes_error_text, HermesError};
use crate::text::{concat, integer_value, is_blank, str_eq, str_is_blank};

verus! {

pub const PROFILE_NAME: &'static str = "prooftrade-agent";
pub const TOOL_CONTRACT_VERSION: &'static str = "prooftrade-agent-tools/v1";
pub const PROMPT_PATH: &'static str = "prompts/prooftrade-agent.md";
pub const TOOL_CONTRACT_PATH: &'static str = "docs/prooftrade-agent-contract.md";

/// A tool the agent may call: its name, whether it changes anything on the
/// exchange, and what it is for.
#[derive(Clone, Copy, Debug, PartialEq, Eq)]
pub struct AgentToolSpec {
    pub name: &'static str,
    pub mutates_exchange: bool,
    pub purpose: &'static str,
}

/// The tools, in contract order.
pub open spec fn tool_names() -> Seq<Seq<char>> {
    seq![
        "get_market_state"@,
        "get_portfolio"@,
        "get_ranked_evidence"@,
        "get_source_health"@,
        "investigate_asset"@,
        "investigate_event"@,
        "submit_trade_decision"@,
        "get_decision_outcome"@,
    ]
}

/// What each tool is for, in contract order.
pub open spec fn tool_purposes() -> Seq<Seq<char>> {
    seq![
        "read current OKX market state"@,
        "read runtime portfolio projection"@,
        "read bounded ranked intelligence"@,
        "read per-source health and degradation"@,
        "request bounded source research"@,
        "inspect an event lineage"@,
        "submit strict proposed intent to runtime"@,
        "read risk and execution outcome"@,
    ]
}

fn spec_entry(name: &'static str, purpose: &'static str) -> (s: AgentToolSpec)
    ensures
        s.name@ == name@,
        s.purpose@ == purpose@,
        !s.mutates_exchange,
{
    AgentToolSpec { name, mutates_exchange: false, purpose }
}

/// The eight tools of the contract; none of them mutates the exchange.
pub fn tool_specs() -> (v: Vec<AgentToolSpec>)
    ensures
        v@.len() == 8,
        forall|i: int| 0 <= i < 8 ==> (#[trigger] v@[i]).name@ == tool_names()[i] && v@[i].purpose@ == tool_purposes()[i],
        forall|i: int| 0 <= i < v@.len() ==> !(#[trigger] v@[i]).mutates_exchange,
{
    let mut v: Vec<AgentToolSpec> = Vec::new();
    v.push(spec_entry("get_market_state", "read current OKX market state"));
    v.push(spec_entry("get_portfolio", "read runtime portfolio projection"));
    v.push(spec_entry("get_ranked_evidence", "read bounded ranked intelligence"));
    v.push(spec_entry("get_source_health", "read per-source health and degradation"));
    v.push(spec_entry("investigate_asset", "request bounded source research"));
    v.push(spec_entry("investigate_event", "inspect an event lineage"));
    v.push(spec_entry("submit_trade_decision", "submit strict proposed intent to runtime"));
    v.push(spec_entry("get_decision_outcome", "read risk and execution outcome"));
    v
}

/// The agent's tools never mutate the exchange.
pub proof fn lemma_tools_read_only(v: Seq<AgentToolSpec>)
    requires
        v.len() == 8,
        forall|i: int| 0 <= i < v.len() ==> !(#[trigger] v[i]).mutates_exchange,
    ensures
        !exists|i: int| 0 <= i < v.len() && (#[trigger] v[i]).mutates_exchange,
{
}

fn text_member(key: &str, value: &str) -> (e: (String, Json))
    ensures
        e.0@ == key@,
        e.1 matches Json::Text(t) && t@ == value@,
{
    (String::from_str(key), Json::Text(String::from_str(value)))
}

/// The fields a decision payload may carry, in schema order.
pub open spec fn decision_schema_fields() -> Seq<Seq<char>> {
    seq!["schema_version"@, "profile"@, "request_id"@, "run_id"@, "emitted_at"@, "decision_id"@, "action"@, "instrument"@, "confidence"@, "support_strength"@, "counter_signal_strength"@, "expected_horizon_secs"@, "desired_exposure_pct"@, "requested_notional"@, "desired_reduction_pct"@, "urgency"@, "max_acceptable_price"@, "why_trade"@, "why_not_trade"@, "reconsider_if"@, "invalidation"@, "evidence_refs"@, "created_at"@]
}

/// The fields a decision payload must carry.
pub open spec fn decision_required_fields() -> Seq<Seq<char>> {
    seq!["schema_version"@, "profile"@, "request_id"@, "run_id"@, "emitted_at"@, "decision_id"@, "instrument"@, "action"@, "confidence"@, "support_strength"@, "counter_signal_strength"@, "urgency"@, "why_trade"@, "why_not_trade"@, "evidence_refs"@, "created_at"@]
}

fn member(key: &str, value: Json) -> (e: (String, Json))
    ensures
        e.0@ == key@,
        e.1 == value,
{
    (String::from_str(key), value)
}

fn text_value(value: &str) -> (j: Json)
    ensures
        j matches Json::Text(t) && t@ == value@,
{
    Json::Text(String::from_str(value))
}

fn int_value(value: i64) -> Json {
    Json::Number(JsonNumber { text: crate::text::i64_text(value), int: Some(value) })
}

fn texts_value(values: &[&str]) -> Json {
    let mut items: Vec<Json> = Vec::new();
    let mut i: usize = 0;
    while i < values.len()
        decreases values.len() - i,
    {
        items.push(Json::Text(String::from_str(values[i])));
        i = i + 1;
    }
    Json::Array(items)
}

fn typed(kind: &str) -> Json {
    let mut m: Vec<(String, Json)> = Vec::new();
    m.push(member("type", text_value(kind)));
    Json::Object(m)
}

fn nullable(kind: &str) -> Json {
    let mut m: Vec<(String, Json)> = Vec::new();
    m.push(member("type", texts_value(&[kind, "null"])));
    Json::Object(m)
}

fn unit_number(nullable_type: bool) -> Json {
    let mut m: Vec<(String, Json)> = Vec::new();
    if nullable_type {
        m.push(member("type", texts_value(&["number", "null"])));
    } else {
        m.push(member("type", text_value("number")));
    }
    m.push(member("minimum", int_value(0)));
    m.push(member("maximum", int_value(1)));
    Json::Object(m)
}

fn nonempty_text() -> Json {
    let mut m: Vec<(String, Json)> = Vec::new();
    m.push(member("type", text_value("string")));
    m.push(member("minLength", int_value(1)));
    Json::Object(m)
}

fn text_list() -> Json {
    let mut m: Vec<(String, Json)> = Vec::new();
    m.push(member("type", text_value("array")));
    m.push(member("items", typed("string")));
    Json::Object(m)
}

fn one_of(values: &[&str]) -> Json {
    let mut m: Vec<(String, Json)> = Vec::new();
    m.push(member("enum", texts_value(values)));
    Json::Object(m)
}

fn constant(value: Json) -> Json {
    let mut m: Vec<(String, Json)> = Vec::new();
    m.push(member("const", value));
    Json::Object(m)
}

/// The JSON schema the agent's decision output must meet: an object with
/// no fields beyond those listed, the required ones present.
pub fn strict_output_schema() -> (v: Json)
    ensures
        v matches Json::Object(m) && m@.len() == 4 && {
            &&& m@[0].0@ == "type"@ && json_is_text_value(m@[0].1, "object"@)
            &&& m@[1].0@ == "additionalProperties"@ && m@[1].1 == Json::Bool(false)
            &&& m@[2].0@ == "required"@ && lists_required(m@[2].1)
            &&& m@[3].0@ == "properties"@ && lists_fields(m@[3].1)
        },
{
    let mut required: Vec<Json> = Vec::new();
    required.push(text_value("schema_version"));
    required.push(text_value("profile"));
    required.push(text_value("request_id"));
    required.push(text_value("run_id"));
    required.push(text_value("emitted_at"));
    required.push(text_value("decision_id"));
    required.push(text_value("instrument"));
    required.push(text_value("action"));
    required.push(text_value("confidence"));
    required.push(text_value("support_strength"));
    required.push(text_value("counter_signal_strength"));
    required.push(text_value("urgency"));
    required.push(text_value("why_trade"));
    required.push(text_value("why_not_trade"));
    required.push(text_value("evidence_refs"));
    required.push(text_value("created_at"));
    let mut p: Vec<(String, Json)> = Vec::new();
    p.push(member("schema_version", constant(int_value(1))));
    p.push(member("profile", constant(text_value(PROFILE_NAME))));
    p.push(member("request_id", nonempty_text()));
    p.push(member("run_id", nonempty_text()));
    p.push(member("emitted_at", typed("string")));
    let mut uuid: Vec<(String, Json)> = Vec::new();
    uuid.push(member("type", text_value("string")));
    uuid.push(member("format", text_value("uuid")));
    p.push(member("decision_id", Json::Object(uuid)));
    p.push(member("action", one_of(&["BUY", "SELL", "HOLD"])));
    p.push(member("instrument", typed("string")));
    p.push(member("confidence", unit_number(false)));
    p.push(member("support_strength", unit_number(false)));
    p.push(member("counter_signal_strength", unit_number(false)));
    let mut horizon: Vec<(String, Json)> = Vec::new();
    horizon.push(member("type", texts_value(&["integer", "null"])));
    horizon.push(member("minimum", int_value(1)));
    p.push(member("expected_horizon_secs", Json::Object(horizon)));
    p.push(member("desired_exposure_pct", unit_number(true)));
    p.push(member("requested_notional", nullable("string")));
    p.push(member("desired_reduction_pct", unit_number(true)));
    p.push(member("urgency", one_of(&["LOW", "NORMAL", "HIGH"])));
    p.push(member("max_acceptable_price", nullable("string")));
    p.push(member("why_trade", text_list()));
    p.push(member("why_not_trade", text_list()));
    p.push(member("reconsider_if", text_list()));
    p.push(member("invalidation", nullable("object")));
    p.push(member("evidence_refs", typed("array")));
    p.push(member("created_at", typed("string")));
    let mut m: Vec<(String, Json)> = Vec::new();
    m.push(member("type", text_value("object")));
    m.push(member("additionalProperties", Json::Bool(false)));
    m.push(member("required", Json::Array(required)));
    m.push(member("properties", Json::Object(p)));
    proof {
        assert(forall|k: int| 0 <= k < 16 ==> json_is_text_value(#[trigger] required@[k], decision_required_fields()[k]));
    }
    Json::Object(m)
}

/// The required fields, as a list of texts.
pub open spec fn lists_required(v: Json) -> bool {
    match v {
        Json::Array(r) => r@.len() == decision_required_fields().len() && forall|k: int|
            0 <= k < r@.len() ==> json_is_text_value(#[trigger] r@[k], decision_required_fields()[k]),
        _ => false,
    }
}

/// A schema for each field, keyed by the field, in order.
pub open spec fn lists_fields(v: Json) -> bool {
    match v {
        Json::Object(p) => p@.len() == decision_schema_fields().len() && forall|k: int|
            0 <= k < p@.len() ==> (#[trigger] p@[k]).0@ == decision_schema_fields()[k],
        _ => false,
    }
}

/// The value is the text `t`.
pub open spec fn json_is_text_value(v: Json, t: Seq<char>) -> bool {
    v matches Json::Text(x) && x@ == t
}

/// The MCP definition of a tool: its name, its purpose as description, and
/// an open object as input schema.
pub open spec fn tool_definition(d: Json, name: Seq<char>, purpose: Seq<char>) -> bool {
    &&& json_get(d, "name"@) matches Some(Json::Text(n)) && n@ == name
    &&& json_get(d, "description"@) matches Some(Json::Text(p)) && p@ == purpose
    &&& json_get(d, "inputSchema"@) matches Some(s) && {
        &&& json_get(s, "type"@) matches Some(Json::Text(t)) && t@ == "object"@
        &&& json_get(s, "additionalProperties"@) == Some(Json::Bool(true))
    }
}

/// The tool definitions an MCP client lists, one per tool, in order.
pub fn mcp_tool_definitions() -> (v: Vec<Json>)
    ensures
        v@.len() == 8,
        forall|i: int| 0 <= i < 8 ==> tool_definition(#[trigger] v@[i], tool_names()[i], tool_purposes()[i]),
{
    let specs = tool_specs();
    let mut out: Vec<Json> = Vec::new();
    let mut i: usize = 0;
    while i < specs.len()
        invariant
            i <= specs@.len(),
            specs@.len() == 8,
            forall|k: int| 0 <= k < 8 ==> (#[trigger] specs@[k]).name@ == tool_names()[k] && specs@[k].purpose@ == tool_purposes()[k],
            out@.len() == i,
            forall|k: int| 0 <= k < i ==> tool_definition(#[trigger] out@[k], tool_names()[k], tool_purposes()[k]),
        decreases specs.len() - i,
    {
        let mut schema: Vec<(String, Json)> = Vec::new();
        schema.push(text_member("type", "object"));
        schema.push((String::from_str("additionalProperties"), Json::Bool(true)));
        let mut entry: Vec<(String, Json)> = Vec::new();
        entry.push(text_member("name", specs[i].name));
        entry.push(text_member("description", specs[i].purpose));
        entry.push((String::from_str("inputSchema"), Json::Object(schema)));
        let d = Json::Object(entry);
        proof {
            reveal_strlit("name");
            reveal_strlit("description");
            reveal_strlit("inputSchema");
            reveal_strlit("type");
            reveal_strlit("additionalProperties");
            assert(entry@[0].0@.len() != "description"@.len());
            assert(entry@[0].0@.len() != "inputSchema"@.len());
            assert(entry@[1].0@[0] != "inputSchema"@[0]);
            assert(schema@[0].0@.len() != "additionalProperties"@.len());
            assert(crate::atk::json::lookup_from(schema@, "type"@, 0) == Some(schema@[0].1));
            assert(crate::atk::json::lookup_from(schema@, "additionalProperties"@, 1) == Some(schema@[1].1));
            assert(crate::atk::json::lookup_from(schema@, "additionalProperties"@, 0) == Some(schema@[1].1));
            assert(crate::atk::json::lookup_from(entry@, "name"@, 0) == Some(entry@[0].1));
            assert(crate::atk::json::lookup_from(entry@, "description"@, 1) == Some(entry@[1].1));
            assert(crate::atk::json::lookup_from(entry@, "description"@, 0) == Some(entry@[1].1));
            assert(crate::atk::json::lookup_from(entry@, "inputSchema"@, 2) == Some(entry@[2].1));
            assert(crate::atk::json::lookup_from(entry@, "inputSchema"@, 1) == Some(entry@[2].1));
            assert(crate::atk::json::lookup_from(entry@, "inputSchema"@, 0) == Some(entry@[2].1));
        }
        out.push(d);
        i = i + 1;
    }
    out
}

#[derive(Debug)]
pub enum AgentToolError {
    UnknownTool(String),
    InvalidArguments(String),
    DecisionRejected(HermesError),
    Serialization(String),
}

pub open spec fn agent_tool_error_text(e: AgentToolError) -> Seq<char> {
    match e {
        AgentToolError::UnknownTool(s) => "unknown prooftrade-agent tool: "@ + s@,
        AgentToolError::InvalidArguments(s) => "invalid tool arguments: "@ + s@,
        AgentToolError::DecisionRejected(h) => "Hermes decision rejected: "@ + hermes_error_text(h),
        AgentToolError::Serialization(s) => "tool response serialization failed: "@ + s@,
    }
}

impl AgentToolError {
    /// The error's message; that of a malformed decision payload ends with
    /// the parser's description.
    pub fn message(&self) -> (text: String)
        ensures
            !(*self matches AgentToolError::DecisionRejected(HermesError::MalformedPayload(_))) ==> text@
                == agent_tool_error_text(*self),
            *self matches AgentToolError::DecisionRejected(HermesError::MalformedPayload(_)) ==> agent_tool_error_text(
                *self,
            ).is_prefix_of(text@),
    {
        match self {
            AgentToolError::UnknownTool(s) => concat("unknown prooftrade-agent tool: ", s.as_str()),
            AgentToolError::InvalidArguments(s) => concat("invalid tool arguments: ", s.as_str()),
            AgentToolError::DecisionRejected(h) => {
                let t = h.message();
                let text = concat("Hermes decision rejected: ", t.as_str());
                proof {
                    let head = "Hermes decision rejected: "@;
                    if h is MalformedPayload {
                        assert((head + hermes_error_text(*h)).is_prefix_of(text@)) by {
                            assert(text@ == head + t@);
                            assert forall|i: int| 0 <= i < (head + hermes_error_text(*h)).len() implies (head + hermes_error_text(*h))[i] == text@[i] by {
                                if i >= head.len() {
                                    assert(hermes_error_text(*h)[i - head.len()] == t@[i - head.len()]);
                                }
                            }
                        }
                    }
                }
                text
            },
            AgentToolError::Serialization(s) => concat("tool response serialization failed: ", s.as_str()),
        }
    }
}

/// The value a JSON number has as an unsigned 64-bit integer, where it is
/// one.
pub open spec fn u64_of(v: Option<Json>) -> Option<u64> {
    match v {
        Some(Json::Number(n)) => match integer_value(n.text@) {
            Some(x) => if 0 <= x <= u64::MAX {
                Some(x as u64)
            } else {
                None
            },
            None => None,
        },
        _ => None,
    }
}

/// The result limit a call asks for: `limit` where it is an unsigned
/// integer, else 20, kept within 1 to 100.
pub open spec fn limit_of(arguments: Json) -> int {
    let asked = match u64_of(json_get(arguments, "limit"@)) {
        Some(n) => n as int,
        None => 20,
    };
    if asked < 1 {
        1
    } else if asked > 100 {
        100
    } else {
        asked
    }
}

pub fn bounded_limit(arguments: &Json) -> (r: Result<usize, AgentToolError>)
    ensures
        r matches Ok(n) && n == limit_of(*arguments),
{
    let asked: u64 = match arguments.get("limit") {
        Some(Json::Number(n)) => match crate::text::parse_i128(n.text.as_str()) {
            Some(x) => if 0 <= x && x <= 0xffff_ffff_ffff_ffff {
                x as u64
            } else {
                20
            },
            None => 20,
        },
        _ => 20,
    };
    let clamped: u64 = if asked < 1 {
        1
    } else if asked > 100 {
        100
    } else {
        asked
    };
    Ok(clamped as usize)
}

/// A string argument that is not blank, as given.
pub open spec fn required_text(arguments: Json, field: Seq<char>) -> Option<Seq<char>> {
    match text_of(json_get(arguments, field)) {
        Some(t) => if !is_blank(t) {
            Some(t)
        } else {
            None
        },
        None => None,
    }
}

pub fn required_string(arguments: &Json, field: &'static str) -> (r: Result<String, AgentToolError>)
    ensures
        match required_text(*arguments, field@) {
            Some(t) => r matches Ok(s) && s@ == t,
            None => r matches Err(AgentToolError::InvalidArguments(m)) && m@ == field@ + " is required"@,
        },
{
    match arguments.get(field) {
        Some(v) => match v.as_str() {
            Some(t) => if !str_is_blank(t) {
                return Ok(String::from_str(t));
            },
            None => {},
        },
        None => {},
    }
    Err(AgentToolError::InvalidArguments(concat(field, " is required")))
}

/// What a tool call asks for, its arguments read.
#[derive(Debug)]
pub enum AgentToolCall {
    MarketState,
    Portfolio,
    RankedEvidence { limit: usize },
    SourceHealth,
    InvestigateAsset { instrument: String, limit: usize },
    InvestigateEvent { event_fingerprint: String, limit: usize },
    SubmitTradeDecision { payload: Json, request_id: String },
    DecisionOutcome,
}

/// The payload a decision submission carries: its `payload` member, or
/// the arguments themselves.
pub open spec fn submitted_payload(arguments: Json) -> Json {
    match json_get(arguments, "payload"@) {
        Some(p) => p,
        None => arguments,
    }
}

/// How a tool call is read.
pub open spec fn routed(name: Seq<char>, arguments: Json, r: Result<AgentToolCall, AgentToolError>) -> bool {
    if name == "get_market_state"@ {
        r matches Ok(AgentToolCall::MarketState)
    } else if name == "get_portfolio"@ {
        r matches Ok(AgentToolCall::Portfolio)
    } else if name == "get_ranked_evidence"@ {
        r matches Ok(AgentToolCall::RankedEvidence { limit }) && limit == limit_of(arguments)
    } else if name == "get_source_health"@ {
        r matches Ok(AgentToolCall::SourceHealth)
    } else if name == "investigate_asset"@ {
        match required_text(arguments, "instrument"@) {
            Some(t) => r matches Ok(AgentToolCall::InvestigateAsset { instrument, limit }) && instrument@ == t && limit
                == limit_of(arguments),
            None => r matches Err(AgentToolError::InvalidArguments(m)) && m@ == "instrument is required"@,
        }
    } else if name == "investigate_event"@ {
        match required_text(arguments, "event_fingerprint"@) {
            Some(t) => r matches Ok(AgentToolCall::InvestigateEvent { event_fingerprint, limit }) && event_fingerprint@ == t
                && limit == limit_of(arguments),
            None => r matches Err(AgentToolError::InvalidArguments(m)) && m@ == "event_fingerprint is required"@,
        }
    } else if name == "submit_trade_decision"@ {
        match required_text(submitted_payload(arguments), "request_id"@) {
            Some(t) => r matches Ok(AgentToolCall::SubmitTradeDecision { payload, request_id }) && payload == submitted_payload(
                arguments,
            ) && request_id@ == t,
            None => r matches Err(AgentToolError::InvalidArguments(m)) && m@ == "request_id is required"@,
        }
    } else if name == "get_decision_outcome"@ {
        r matches Ok(AgentToolCall::DecisionOutcome)
    } else {
        r matches Err(AgentToolError::UnknownTool(m)) && m@ == name
    }
}

/// Serves the agent's tools over the trading universe and an operator
/// state.
pub struct AgentToolRegistry<S> {
    universe: TradingUniverse,
    state: S,
}

impl<S> AgentToolRegistry<S> {
    pub closed spec fn spec_universe(&self) -> TradingUniverse {
        self.universe
    }

    pub closed spec fn spec_state(&self) -> S {
        self.state
    }

    pub fn new(universe: TradingUniverse, state: S) -> (r: AgentToolRegistry<S>)
        ensures
            r.spec_universe() == universe,
            r.spec_state() == state,
    {
        AgentToolRegistry { universe, state }
    }

    pub fn universe(&self) -> (u: &TradingUniverse)
        ensures
            *u == self.spec_universe(),
    {
        &self.universe
    }

    pub fn state(&self) -> (s: &S)
        ensures
            *s == self.spec_state(),
    {
        &self.state
    }

    /// The tool definitions.
    pub fn list(&self) -> (v: Vec<Json>)
        ensures
            v@.len() == 8,
            forall|i: int| 0 <= i < 8 ==> tool_definition(#[trigger] v@[i], tool_names()[i], tool_purposes()[i]),
    {
        mcp_tool_definitions()
    }

    /// Reads a tool call: which tool, with which checked arguments.
    pub fn route(&self, name: &str, arguments: Json) -> (r: Result<AgentToolCall, AgentToolError>)
        ensures
            routed(name@, arguments, r),
    {
        if str_eq(name, "get_market_state") {
            Ok(AgentToolCall::MarketState)
        } else if str_eq(name, "get_portfolio") {
            Ok(AgentToolCall::Portfolio)
        } else if str_eq(name, "get_ranked_evidence") {
            let limit = bounded_limit(&arguments)?;
            Ok(AgentToolCall::RankedEvidence { limit })
        } else if str_eq(name, "get_source_health") {
            Ok(AgentToolCall::SourceHealth)
        } else if str_eq(name, "investigate_asset") {
            let instrument = match required_string(&arguments, "instrument") {
                Ok(s) => s,
                Err(e) => {
                    proof {
                        reveal_strlit("instrument");
                        reveal_strlit(" is required");
                        reveal_strlit("instrument is required");
                        assert("instrument"@ + " is required"@ =~= "instrument is required"@);
                    }
                    return Err(e);
                },
            };
            let limit = bounded_limit(&arguments)?;
            Ok(AgentToolCall::InvestigateAsset { instrument, limit })
        } else if str_eq(name, "investigate_event") {
            let event_fingerprint = match required_string(&arguments, "event_fingerprint") {
                Ok(s) => s,
                Err(e) => {
                    proof {
                        reveal_strlit("event_fingerprint");
                        reveal_strlit(" is required");
                        reveal_strlit("event_fingerprint is required");
                        assert("event_fingerprint"@ + " is required"@ =~= "event_fingerprint is required"@);
                    }
                    return Err(e);
                },
            };
            let limit = bounded_limit(&arguments)?;
            Ok(AgentToolCall::InvestigateEvent { event_fingerprint, limit })
        } else if str_eq(name, "submit_trade_decision") {
            let payload = if arguments.get("payload").is_some() {
                crate::atk::replies::take_member(arguments, "payload").unwrap()
            } else {
                arguments
            };
            let request_id = match required_string(&payload, "request_id") {
                Ok(s) => s,
                Err(e) => {
                    proof {
                        reveal_strlit("request_id");
                        reveal_strlit(" is required");
                        reveal_strlit("request_id is required");
                        assert("request_id"@ + " is required"@ =~= "request_id is required"@);
                    }
                    return Err(e);
                },
            };
            Ok(AgentToolCall::SubmitTradeDecision { payload, request_id })
        } else if str_eq(name, "get_decision_outcome") {
            Ok(AgentToolCall::DecisionOutcome)
        } else {
            Err(AgentToolError::UnknownTool(String::from_str(name)))
        }
    }
}

} // verus!
