//! What the agent's tools answer: read-only views of the operator model,
//! and a submitted decision validated into a proposed intent that still
//! awaits risk evaluation. No answer changes anything on the exchange.

use vstd::prelude::*;

use crate::agent_contract::{json_is_text_value, AgentToolCall, AgentToolError};
use crate::atk::json::{Json, JsonNumber};
use crate::dec::decimal_text;
use crate::domain::decisions::{TradeAction, TradeDecision, Urgency};
use crate::domain::universe::TradingUniverse;
use crate::hermes::{validated_as, DecisionProvenance, HermesError, HermesRequest, RawHermesDecision, ValidatedAgentDecision};
use crate::intelligence::evidence::IntelligenceEvidence;
use crate::operator::{environment_label, safety_label};
use crate::operator_model::{investigate_asset, investigate_event, investigated, OperatorReadModel};
use crate::risk::{OperatingMode, SafetyState};
use crate::text::{concat, decimal_digits, hex_digits, hex_text, i64_text, int_text, u64_text};

verus! {

/// The hyphenated lower-case text of a UUID: eight, four, four, four and
/// twelve hexadecimal digits.
pub open spec fn uuid_text(v: u128) -> Seq<char> {
    hex_digits(v as nat / 0x1_0000_0000_0000_0000_0000_0000, 8) + "-"@ + hex_digits(
        v as nat / 0x1_0000_0000_0000_0000_0000,
        4,
    ) + "-"@ + hex_digits(v as nat / 0x1_0000_0000_0000_0000, 4) + "-"@ + hex_digits(v as nat / 0x1_0000_0000_0000, 4)
        + "-"@ + hex_digits(v as nat, 12)
}

/// Writes a UUID as hyphenated text.
pub fn uuid_string(v: u128) -> (s: String)
    ensures
        s@ == uuid_text(v),
{
    proof {
        reveal_strlit("-");
    }
    let a = hex_text(v / 0x1_0000_0000_0000_0000_0000_0000, 8);
    let b = hex_text(v / 0x1_0000_0000_0000_0000_0000, 4);
    let c = hex_text(v / 0x1_0000_0000_0000_0000, 4);
    let d = hex_text(v / 0x1_0000_0000_0000, 4);
    let e = hex_text(v, 12);
    let s = concat(a.as_str(), "-");
    let s = concat(s.as_str(), b.as_str());
    let s = concat(s.as_str(), "-");
    let s = concat(s.as_str(), c.as_str());
    let s = concat(s.as_str(), "-");
    let s = concat(s.as_str(), d.as_str());
    let s = concat(s.as_str(), "-");
    concat(s.as_str(), e.as_str())
}

pub open spec fn action_label(a: TradeAction) -> Seq<char> {
    match a {
        TradeAction::Buy => "BUY"@,
        TradeAction::Sell => "SELL"@,
        TradeAction::Hold => "HOLD"@,
    }
}

pub open spec fn urgency_label(u: Urgency) -> Seq<char> {
    match u {
        Urgency::Low => "LOW"@,
        Urgency::Normal => "NORMAL"@,
        Urgency::High => "HIGH"@,
    }
}

pub open spec fn environment_text(e: OperatingMode) -> Seq<char> {
    match e {
        OperatingMode::Simulation => "SIMULATION"@,
        OperatingMode::Demo => "DEMO"@,
        OperatingMode::Live => "LIVE"@,
    }
}

pub open spec fn safety_text(s: SafetyState) -> Seq<char> {
    match s {
        SafetyState::Normal => "NORMAL"@,
        SafetyState::Safe => "SAFE"@,
        SafetyState::Killed => "KILLED"@,
    }
}

/// The value is the integer `n`, written in decimal.
pub open spec fn json_is_int(v: Json, n: int) -> bool {
    v matches Json::Number(x) && x.text@ == int_text(n) && x.int == Some(n as i64) && i64::MIN <= n <= i64::MAX
}

/// The value is the count `n`, written in decimal.
pub open spec fn json_is_count(v: Json, n: nat) -> bool {
    v matches Json::Number(x) && x.text@ == decimal_digits(n) && x.int == (if n <= i64::MAX {
        Some(n as i64)
    } else {
        None
    })
}

/// A member `key` holding `value`.
pub fn entry(key: &str, value: Json) -> (e: (String, Json))
    ensures
        e.0@ == key@,
        e.1 == value,
{
    (String::from_str(key), value)
}

pub fn text_json(value: &str) -> (j: Json)
    ensures
        json_is_text_value(j, value@),
{
    Json::Text(String::from_str(value))
}

fn int_json(n: i64) -> (j: Json)
    ensures
        json_is_int(j, n as int),
{
    Json::Number(JsonNumber { text: i64_text(n), int: Some(n) })
}

pub fn count_json(n: usize) -> (j: Json)
    ensures
        json_is_count(j, n as nat),
{
    let small: Option<i64> = if n as u64 <= 0x7fff_ffff_ffff_ffff {
        Some(n as i64)
    } else {
        None
    };
    Json::Number(JsonNumber { text: u64_text(n as u64), int: small })
}

/// A proposed decision as the agent sees it: its ID, instrument, action,
/// confidence, support and counter-signal strength, and urgency.
pub open spec fn decision_answer(d: TradeDecision, j: Json) -> bool {
    j matches Json::Object(m) && m@.len() == 7 && {
        &&& m@[0].0@ == "decision_id"@ && json_is_text_value(m@[0].1, uuid_text(d.decision_id.0))
        &&& m@[1].0@ == "instrument"@ && json_is_text_value(m@[1].1, d.instrument@)
        &&& m@[2].0@ == "action"@ && json_is_text_value(m@[2].1, action_label(d.action))
        &&& m@[3].0@ == "confidence"@ && json_is_text_value(m@[3].1, decimal_text(d.confidence@))
        &&& m@[4].0@ == "support_strength"@ && json_is_text_value(m@[4].1, decimal_text(d.support_strength@))
        &&& m@[5].0@ == "counter_signal_strength"@ && json_is_text_value(
            m@[5].1,
            decimal_text(d.counter_signal_strength@),
        )
        &&& m@[6].0@ == "urgency"@ && json_is_text_value(m@[6].1, urgency_label(d.urgency))
    }
}

/// Where a proposed decision came from; the emission time in Unix seconds.
pub open spec fn provenance_answer(p: DecisionProvenance, j: Json) -> bool {
    j matches Json::Object(m) && m@.len() == 5 && {
        &&& m@[0].0@ == "schema_version"@ && json_is_count(m@[0].1, p.schema_version as nat)
        &&& m@[1].0@ == "profile"@ && json_is_text_value(m@[1].1, p.profile@)
        &&& m@[2].0@ == "request_id"@ && json_is_text_value(m@[2].1, p.request_id@)
        &&& m@[3].0@ == "run_id"@ && json_is_text_value(m@[3].1, p.run_id@)
        &&& m@[4].0@ == "emitted_at"@ && json_is_int(m@[4].1, p.emitted_at.unix_seconds as int)
    }
}

/// The answer to an accepted submission: a proposed intent, the decision
/// and its provenance, with risk evaluation still required and no exchange
/// mutation.
pub open spec fn proposal_answer(v: ValidatedAgentDecision, j: Json) -> bool {
    j matches Json::Object(m) && m@.len() == 5 && {
        &&& m@[0].0@ == "status"@ && json_is_text_value(m@[0].1, "PROPOSED_INTENT"@)
        &&& m@[1].0@ == "decision"@ && decision_answer(v.spec_decision(), m@[1].1)
        &&& m@[2].0@ == "provenance"@ && provenance_answer(v.spec_provenance(), m@[2].1)
        &&& m@[3].0@ == "risk_evaluation"@ && json_is_text_value(m@[3].1, "required_before_execution"@)
        &&& m@[4].0@ == "exchange_mutation"@ && m@[4].1 == Json::Bool(false)
    }
}

/// How a raw decision is validated for the active request: refused when
/// it answers another request, else validated against the universe.
pub open spec fn validated_for_request(raw: RawHermesDecision, u: Seq<Seq<char>>, request_id: Seq<char>, vr: Result<ValidatedAgentDecision, HermesError>) -> bool {
    if raw.request_id@ != request_id {
        vr matches Err(HermesError::InvalidField { field, reason }) && field == "request_id" && reason@
            == "does not match the active Hermes request"@
    } else {
        validated_as(raw, u, vr)
    }
}

/// What a submission answers for a validation outcome: the proposal, or
/// the refusal as a rejected decision.
pub open spec fn submission_answer(vr: Result<ValidatedAgentDecision, HermesError>, r: Result<Json, AgentToolError>) -> bool {
    match vr {
        Ok(v) => r matches Ok(j) && proposal_answer(v, j),
        Err(e) => r matches Err(AgentToolError::DecisionRejected(x)) && x == e,
    }
}

fn decision_json(d: &TradeDecision) -> (j: Json)
    ensures
        decision_answer(*d, j),
{
    let action = match d.action {
        TradeAction::Buy => "BUY",
        TradeAction::Sell => "SELL",
        TradeAction::Hold => "HOLD",
    };
    let urgency = match d.urgency {
        Urgency::Low => "LOW",
        Urgency::Normal => "NORMAL",
        Urgency::High => "HIGH",
    };
    proof {
        reveal_strlit("BUY");
        reveal_strlit("SELL");
        reveal_strlit("HOLD");
        reveal_strlit("LOW");
        reveal_strlit("NORMAL");
        reveal_strlit("HIGH");
    }
    let mut m: Vec<(String, Json)> = Vec::new();
    m.push(entry("decision_id", Json::Text(uuid_string(d.decision_id.0))));
    m.push(entry("instrument", text_json(d.instrument.symbol())));
    m.push(entry("action", text_json(action)));
    m.push(entry("confidence", Json::Text(d.confidence.to_text())));
    m.push(entry("support_strength", Json::Text(d.support_strength.to_text())));
    m.push(entry("counter_signal_strength", Json::Text(d.counter_signal_strength.to_text())));
    m.push(entry("urgency", text_json(urgency)));
    proof {
        reveal_strlit("decision_id");
        reveal_strlit("instrument");
        reveal_strlit("action");
        reveal_strlit("confidence");
        reveal_strlit("support_strength");
        reveal_strlit("counter_signal_strength");
        reveal_strlit("urgency");
    }
    Json::Object(m)
}

fn provenance_json(p: &DecisionProvenance) -> (j: Json)
    ensures
        provenance_answer(*p, j),
{
    let mut m: Vec<(String, Json)> = Vec::new();
    m.push(entry("schema_version", count_json(p.schema_version as usize)));
    m.push(entry("profile", text_json(p.profile.as_str())));
    m.push(entry("request_id", text_json(p.request_id.as_str())));
    m.push(entry("run_id", text_json(p.run_id.as_str())));
    m.push(entry("emitted_at", int_json(p.emitted_at.unix_seconds)));
    proof {
        reveal_strlit("schema_version");
        reveal_strlit("profile");
        reveal_strlit("request_id");
        reveal_strlit("run_id");
        reveal_strlit("emitted_at");
    }
    Json::Object(m)
}

/// The answer to an accepted decision.
pub fn proposal_json(v: &ValidatedAgentDecision) -> (j: Json)
    ensures
        proposal_answer(*v, j),
{
    let mut m: Vec<(String, Json)> = Vec::new();
    m.push(entry("status", text_json("PROPOSED_INTENT")));
    m.push(entry("decision", decision_json(v.decision())));
    m.push(entry("provenance", provenance_json(v.provenance())));
    m.push(entry("risk_evaluation", text_json("required_before_execution")));
    m.push(entry("exchange_mutation", Json::Bool(false)));
    proof {
        reveal_strlit("status");
        reveal_strlit("decision");
        reveal_strlit("provenance");
        reveal_strlit("risk_evaluation");
        reveal_strlit("exchange_mutation");
    }
    Json::Object(m)
}

/// `submit_trade_decision`: the raw decision validated for the request
/// and the universe; an accepted one is a proposed intent awaiting risk
/// evaluation, a refused one a rejected decision.
pub fn submit_decision(universe: &TradingUniverse, raw: RawHermesDecision, request_id: String) -> (r: Result<Json, AgentToolError>)
    ensures
        exists|vr: Result<ValidatedAgentDecision, HermesError>| #[trigger] validated_for_request(
            raw,
            universe@,
            request_id@,
            vr,
        ) && submission_answer(vr, r),
{
    let ghost given = raw;
    let request = HermesRequest { request_id };
    let vr = raw.into_validated_for_request(universe, &request);
    let ghost outcome = vr;
    assert(validated_for_request(given, universe@, request.request_id@, outcome));
    match vr {
        Ok(v) => Ok(proposal_json(&v)),
        Err(e) => Err(AgentToolError::DecisionRejected(e)),
    }
}

/// A cached record as the agent sees it: its source's event ID, summary
/// and event fingerprint.
pub open spec fn evidence_answer(e: IntelligenceEvidence, j: Json) -> bool {
    j matches Json::Object(m) && m@.len() == 3 && {
        &&& m@[0].0@ == "source_event_id"@ && json_is_text_value(m@[0].1, e.source_event_id@)
        &&& m@[1].0@ == "summary"@ && json_is_text_value(m@[1].1, e.summary@)
        &&& m@[2].0@ == "event_fingerprint"@ && json_is_text_value(m@[2].1, e.event_fingerprint.spec_text())
    }
}

/// The records, in order.
pub open spec fn evidence_list(s: Seq<IntelligenceEvidence>, j: Json) -> bool {
    j matches Json::Array(items) && items@.len() == s.len() && forall|k: int|
        0 <= k < s.len() ==> evidence_answer(s[k], #[trigger] items@[k])
}

pub open spec fn market_reason() -> Seq<char> {
    "market context is not present in the persisted operator projection"@
}

/// `get_market_state`: no market context is kept, so it is unavailable.
pub open spec fn market_answer(m: OperatorReadModel, j: Json) -> bool {
    j matches Json::Object(e) && e@.len() == 3 && {
        &&& e@[0].0@ == "status"@ && json_is_text_value(e@[0].1, "unavailable"@)
        &&& e@[1].0@ == "environment"@ && json_is_text_value(e@[1].1, environment_text(m.environment))
        &&& e@[2].0@ == "reason"@ && json_is_text_value(e@[2].1, market_reason())
    }
}

/// `get_portfolio`: the environment and the safety state.
pub open spec fn portfolio_answer(m: OperatorReadModel, j: Json) -> bool {
    j matches Json::Object(e) && e@.len() == 2 && {
        &&& e@[0].0@ == "environment"@ && json_is_text_value(e@[0].1, environment_text(m.environment))
        &&& e@[1].0@ == "safety_state"@ && json_is_text_value(e@[1].1, safety_text(m.safety_state))
    }
}

pub open spec fn at_most(n: nat, limit: nat) -> nat {
    if n < limit {
        n
    } else {
        limit
    }
}

/// `get_ranked_evidence`: the first cached records, at most `limit`.
pub open spec fn ranked_answer(m: OperatorReadModel, limit: nat, j: Json) -> bool {
    j matches Json::Object(e) && e@.len() == 2 && {
        &&& e@[0].0@ == "signals"@ && evidence_list(m.signals@.take(at_most(m.signals@.len(), limit) as int), e@[0].1)
        &&& e@[1].0@ == "bounded"@ && e@[1].1 == Json::Bool(true)
    }
}

/// `get_source_health`: how many sources are tracked and how many research
/// errors are recorded.
pub open spec fn source_answer(m: OperatorReadModel, j: Json) -> bool {
    j matches Json::Object(e) && e@.len() == 3 && {
        &&& e@[0].0@ == "sources"@ && json_is_count(e@[0].1, m.sources@.len())
        &&& e@[1].0@ == "errors"@ && json_is_count(e@[1].1, m.research.errors@.len())
        &&& e@[2].0@ == "bounded"@ && e@[2].1 == Json::Bool(true)
    }
}

/// `investigate_asset`: the cached records that name the instrument, at
/// most `limit`, read without network access.
pub open spec fn asset_answer(m: OperatorReadModel, instrument: Seq<char>, limit: nat, j: Json) -> bool {
    exists|found: Seq<IntelligenceEvidence>| #[trigger] investigated(found, m.signals@, true, instrument, limit) && {
        j matches Json::Object(e) && e@.len() == 4 && {
            &&& e@[0].0@ == "instrument"@ && json_is_text_value(e@[0].1, instrument)
            &&& e@[1].0@ == "status"@ && json_is_text_value(
                e@[1].1,
                if found.len() == 0 {
                    "no_cached_evidence"@
                } else {
                    "cached_evidence"@
                },
            )
            &&& e@[2].0@ == "signals"@ && evidence_list(found, e@[2].1)
            &&& e@[3].0@ == "network_access"@ && e@[3].1 == Json::Bool(false)
        }
    }
}

/// `investigate_event`: the cached records of the event, at most `limit`,
/// read without network access.
pub open spec fn event_answer(m: OperatorReadModel, fingerprint: Seq<char>, limit: nat, j: Json) -> bool {
    exists|found: Seq<IntelligenceEvidence>| #[trigger] investigated(found, m.signals@, false, fingerprint, limit) && {
        j matches Json::Object(e) && e@.len() == 3 && {
            &&& e@[0].0@ == "event_fingerprint"@ && json_is_text_value(e@[0].1, fingerprint)
            &&& e@[1].0@ == "signals"@ && evidence_list(found, e@[1].1)
            &&& e@[2].0@ == "network_access"@ && e@[2].1 == Json::Bool(false)
        }
    }
}

/// `get_decision_outcome`: how many executions are recorded, and the
/// execution warning where there is one.
pub open spec fn outcome_answer(m: OperatorReadModel, j: Json) -> bool {
    j matches Json::Object(e) && e@.len() == 2 && {
        &&& e@[0].0@ == "executions"@ && json_is_count(e@[0].1, m.executions@.len())
        &&& e@[1].0@ == "warning"@ && match m.execution_warning {
            Some(w) => json_is_text_value(e@[1].1, w@),
            None => e@[1].1 == Json::Null,
        }
    }
}

/// What each tool answers over the operator model; a submission answers
/// for the decision read from its payload.
pub open spec fn tool_answered(u: TradingUniverse, m: OperatorReadModel, call: AgentToolCall, raw: Option<RawHermesDecision>, r: Result<Json, AgentToolError>) -> bool {
    match call {
        AgentToolCall::MarketState => r matches Ok(j) && market_answer(m, j),
        AgentToolCall::Portfolio => r matches Ok(j) && portfolio_answer(m, j),
        AgentToolCall::RankedEvidence { limit } => r matches Ok(j) && ranked_answer(m, limit as nat, j),
        AgentToolCall::SourceHealth => r matches Ok(j) && source_answer(m, j),
        AgentToolCall::InvestigateAsset { instrument, limit } => r matches Ok(j) && asset_answer(m, instrument@, limit as nat, j),
        AgentToolCall::InvestigateEvent { event_fingerprint, limit } => r matches Ok(j) && event_answer(
            m,
            event_fingerprint@,
            limit as nat,
            j,
        ),
        AgentToolCall::SubmitTradeDecision { request_id, .. } => exists|vr: Result<ValidatedAgentDecision, HermesError>|
            #[trigger] validated_for_request(raw->0, u@, request_id@, vr) && submission_answer(vr, r),
        AgentToolCall::DecisionOutcome => r matches Ok(j) && outcome_answer(m, j),
    }
}

fn evidence_json(e: &IntelligenceEvidence) -> (j: Json)
    ensures
        evidence_answer(*e, j),
{
    let mut m: Vec<(String, Json)> = Vec::new();
    m.push(entry("source_event_id", text_json(e.source_event_id.as_str())));
    m.push(entry("summary", text_json(e.summary.as_str())));
    m.push(entry("event_fingerprint", text_json(e.event_fingerprint.as_str())));
    proof {
        reveal_strlit("source_event_id");
        reveal_strlit("summary");
        reveal_strlit("event_fingerprint");
    }
    Json::Object(m)
}

fn evidence_list_json(s: &Vec<IntelligenceEvidence>, n: usize) -> (j: Json)
    requires
        n <= s@.len(),
    ensures
        evidence_list(s@.take(n as int), j),
{
    let mut items: Vec<Json> = Vec::new();
    let mut i: usize = 0;
    while i < n
        invariant
            i <= n <= s@.len(),
            items@.len() == i,
            forall|k: int| 0 <= k < i ==> evidence_answer(s@[k], #[trigger] items@[k]),
        decreases n - i,
    {
        items.push(evidence_json(&s[i]));
        i = i + 1;
    }
    Json::Array(items)
}

fn found_json(s: &Vec<IntelligenceEvidence>) -> (j: Json)
    ensures
        evidence_list(s@, j),
{
    let j = evidence_list_json(s, s.len());
    proof {
        assert(s@.take(s@.len() as int) =~= s@);
    }
    j
}

/// Answers a routed tool call from the operator model; `raw` is the
/// decision read from a submission's payload.
pub fn tool_answer(universe: &TradingUniverse, model: &OperatorReadModel, call: AgentToolCall, raw: Option<RawHermesDecision>) -> (r: Result<Json, AgentToolError>)
    requires
        call is SubmitTradeDecision ==> raw is Some,
    ensures
        tool_answered(*universe, *model, call, raw, r),
{
    let env = environment_label(model.environment);
    match call {
        AgentToolCall::MarketState => {
            let mut e: Vec<(String, Json)> = Vec::new();
            e.push(entry("status", text_json("unavailable")));
            e.push(entry("environment", text_json(env)));
            e.push(entry("reason", text_json("market context is not present in the persisted operator projection")));
            proof {
                reveal_strlit("status");
                reveal_strlit("unavailable");
                reveal_strlit("environment");
                reveal_strlit("reason");
                reveal_strlit("market context is not present in the persisted operator projection");
            }
            Ok(Json::Object(e))
        },
        AgentToolCall::Portfolio => {
            let mut e: Vec<(String, Json)> = Vec::new();
            e.push(entry("environment", text_json(env)));
            e.push(entry("safety_state", text_json(safety_label(model.safety_state))));
            proof {
                reveal_strlit("environment");
                reveal_strlit("safety_state");
            }
            Ok(Json::Object(e))
        },
        AgentToolCall::RankedEvidence { limit } => {
            let n = if model.signals.len() < limit {
                model.signals.len()
            } else {
                limit
            };
            let mut e: Vec<(String, Json)> = Vec::new();
            e.push(entry("signals", evidence_list_json(&model.signals, n)));
            e.push(entry("bounded", Json::Bool(true)));
            proof {
                reveal_strlit("signals");
                reveal_strlit("bounded");
            }
            Ok(Json::Object(e))
        },
        AgentToolCall::SourceHealth => {
            let mut e: Vec<(String, Json)> = Vec::new();
            e.push(entry("sources", count_json(model.sources.len())));
            e.push(entry("errors", count_json(model.research.errors.len())));
            e.push(entry("bounded", Json::Bool(true)));
            proof {
                reveal_strlit("sources");
                reveal_strlit("errors");
                reveal_strlit("bounded");
            }
            Ok(Json::Object(e))
        },
        AgentToolCall::InvestigateAsset { instrument, limit } => {
            let found = investigate_asset(model, instrument.as_str(), limit);
            let status = if found.len() == 0 {
                "no_cached_evidence"
            } else {
                "cached_evidence"
            };
            let mut e: Vec<(String, Json)> = Vec::new();
            e.push(entry("instrument", text_json(instrument.as_str())));
            e.push(entry("status", text_json(status)));
            e.push(entry("signals", found_json(&found)));
            e.push(entry("network_access", Json::Bool(false)));
            proof {
                reveal_strlit("instrument");
                reveal_strlit("status");
                reveal_strlit("no_cached_evidence");
                reveal_strlit("cached_evidence");
                reveal_strlit("signals");
                reveal_strlit("network_access");
            }
            let j = Json::Object(e);
            assert(asset_answer(*model, instrument@, limit as nat, j));
            Ok(j)
        },
        AgentToolCall::InvestigateEvent { event_fingerprint, limit } => {
            let found = investigate_event(model, event_fingerprint.as_str(), limit);
            let mut e: Vec<(String, Json)> = Vec::new();
            e.push(entry("event_fingerprint", text_json(event_fingerprint.as_str())));
            e.push(entry("signals", found_json(&found)));
            e.push(entry("network_access", Json::Bool(false)));
            proof {
                reveal_strlit("event_fingerprint");
                reveal_strlit("signals");
                reveal_strlit("network_access");
            }
            let j = Json::Object(e);
            assert(event_answer(*model, event_fingerprint@, limit as nat, j));
            Ok(j)
        },
        AgentToolCall::SubmitTradeDecision { payload: _, request_id } => submit_decision(universe, raw.unwrap(), request_id),
        AgentToolCall::DecisionOutcome => {
            let warning = match &model.execution_warning {
                Some(w) => text_json(w.as_str()),
                None => Json::Null,
            };
            let mut e: Vec<(String, Json)> = Vec::new();
            e.push(entry("executions", count_json(model.executions.len())));
            e.push(entry("warning", warning));
            proof {
                reveal_strlit("executions");
                reveal_strlit("warning");
            }
            Ok(Json::Object(e))
        },
    }
}

} // verus!
