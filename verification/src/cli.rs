//! The command line's rules and the agent MCP server's replies: flag
//! lookup, the loopback-only operator binding, the canonical simulation
//! scenario, and the JSON-RPC answers of the `prooftrade-agent` server.

use vstd::prelude::*;

use crate::atk::json::{Json, JsonNumber};
use crate::text::{str_eq, str_starts_with};

verus! {

/// The value after the first occurrence of the flag.
pub open spec fn flag_value_of(arguments: Seq<Seq<char>>, flag: Seq<char>) -> Option<Seq<char>>
    decreases arguments.len(),
{
    if arguments.len() < 2 {
        None
    } else if arguments[0] == flag {
        Some(arguments[1])
    } else {
        flag_value_of(arguments.subrange(1, arguments.len() as int), flag)
    }
}

pub fn flag_value(arguments: &Vec<String>, flag: &str) -> (r: Option<String>)
    ensures
        r matches Some(v) ==> flag_value_of(crate::text::texts(arguments@), flag@) == Some(v@),
        r is None ==> flag_value_of(crate::text::texts(arguments@), flag@) is None,
{
    let ghost t = crate::text::texts(arguments@);
    let mut i: usize = 0;
    proof {
        assert(t.subrange(0, t.len() as int) =~= t);
    }
    while arguments.len() - i > 1
        invariant
            i <= arguments@.len(),
            t == crate::text::texts(arguments@),
            flag_value_of(t, flag@) == flag_value_of(t.subrange(i as int, t.len() as int), flag@),
        decreases arguments.len() - i,
    {
        let ghost s = t.subrange(i as int, t.len() as int);
        if str_eq(arguments[i].as_str(), flag) {
            proof {
                assert(s[0] == t[i as int]);
                assert(s[1] == t[i + 1]);
            }
            return Some(arguments[i + 1].clone());
        }
        proof {
            assert(s.subrange(1, s.len() as int) =~= t.subrange(i + 1, t.len() as int));
        }
        i = i + 1;
    }
    None
}

/// An operator binding on the loopback interface only.
pub open spec fn loopback_bind(bind: Seq<char>) -> bool {
    "127.0.0.1:"@.is_prefix_of(bind) || "[::1]:"@.is_prefix_of(bind)
}

pub fn is_loopback_bind(bind: &str) -> (b: bool)
    ensures
        b == loopback_bind(bind@),
{
    str_starts_with(bind, "127.0.0.1:") || str_starts_with(bind, "[::1]:")
}

/// The only scenario the simulation runs.
pub const DEMO_SCENARIO: &'static str = "btc-entry-and-hard-take-profit";

/// The label of the simulation's fixtures.
pub const DEMO_FIXTURE_LABEL: &'static str = "deterministic-fixture";

/// The simulation accepts only its canonical 30 USDT of cash and its one
/// scenario, where those flags are given.
pub open spec fn simulation_flags_fault(arguments: Seq<Seq<char>>) -> Option<Seq<char>> {
    if flag_value_of(arguments, "--cash"@) matches Some(c) && c != "30"@ {
        Some("the canonical demo scenario uses exactly 30 USDT of synthetic cash"@)
    } else if flag_value_of(arguments, "--scenario"@) matches Some(s) && s != "btc-entry-and-hard-take-profit"@ {
        Some("unknown scenario; use btc-entry-and-hard-take-profit"@)
    } else {
        None
    }
}

pub fn check_simulation_flags(arguments: &Vec<String>) -> (r: Result<(), String>)
    ensures
        match simulation_flags_fault(crate::text::texts(arguments@)) {
            Some(m) => r matches Err(e) && e@ == m,
            None => r is Ok,
        },
{
    match flag_value(arguments, "--cash") {
        Some(cash) => if !str_eq(cash.as_str(), "30") {
            return Err(String::from_str("the canonical demo scenario uses exactly 30 USDT of synthetic cash"));
        },
        None => {},
    }
    match flag_value(arguments, "--scenario") {
        Some(scenario) => if !str_eq(scenario.as_str(), "btc-entry-and-hard-take-profit") {
            return Err(String::from_str("unknown scenario; use btc-entry-and-hard-take-profit"));
        },
        None => {},
    }
    Ok(())
}

/// What an agent MCP request asks for.
#[derive(Clone, Copy, Debug, PartialEq, Eq, Structural)]
pub enum AgentMcpMethod {
    Initialize,
    Ping,
    ToolsList,
    ToolsCall,
    Initialized,
    Unknown,
}

pub open spec fn agent_method_of(method: Seq<char>) -> AgentMcpMethod {
    if method == "initialize"@ {
        AgentMcpMethod::Initialize
    } else if method == "ping"@ {
        AgentMcpMethod::Ping
    } else if method == "tools/list"@ {
        AgentMcpMethod::ToolsList
    } else if method == "tools/call"@ {
        AgentMcpMethod::ToolsCall
    } else if method == "notifications/initialized"@ {
        AgentMcpMethod::Initialized
    } else {
        AgentMcpMethod::Unknown
    }
}

pub fn agent_method(method: &str) -> (m: AgentMcpMethod)
    ensures
        m == agent_method_of(method@),
{
    if str_eq(method, "initialize") {
        AgentMcpMethod::Initialize
    } else if str_eq(method, "ping") {
        AgentMcpMethod::Ping
    } else if str_eq(method, "tools/list") {
        AgentMcpMethod::ToolsList
    } else if str_eq(method, "tools/call") {
        AgentMcpMethod::ToolsCall
    } else if str_eq(method, "notifications/initialized") {
        AgentMcpMethod::Initialized
    } else {
        AgentMcpMethod::Unknown
    }
}

fn member(key: &str, value: Json) -> (e: (String, Json))
    ensures
        e.0@ == key@,
        e.1 == value,
{
    (String::from_str(key), value)
}

fn text(value: &str) -> (j: Json)
    ensures
        j matches Json::Text(t) && t@ == value@,
{
    Json::Text(String::from_str(value))
}

/// `{"jsonrpc": "2.0", "id": id, "result": result}`.
pub fn rpc_reply(id: Json, result: Json) -> (r: Json)
    ensures
        r matches Json::Object(e) && e@.len() == 3 && e@[0].0@ == "jsonrpc"@ && e@[1].0@ == "id"@ && e@[1].1 == id
            && e@[2].0@ == "result"@ && e@[2].1 == result,
{
    let mut entries: Vec<(String, Json)> = Vec::new();
    entries.push(member("jsonrpc", text("2.0")));
    entries.push(member("id", id));
    entries.push(member("result", result));
    Json::Object(entries)
}

/// The `initialize` result: protocol 2024-11-05, tools offered, and the
/// server's name and version.
pub fn initialize_result(version: &str) -> (r: Json)
    ensures
        r is Object,
{
    let mut info: Vec<(String, Json)> = Vec::new();
    info.push(member("name", text("prooftrade-agent")));
    info.push(member("version", text(version)));
    let mut capabilities: Vec<(String, Json)> = Vec::new();
    capabilities.push(member("tools", Json::Object(Vec::new())));
    let mut result: Vec<(String, Json)> = Vec::new();
    result.push(member("protocolVersion", text("2024-11-05")));
    result.push(member("capabilities", Json::Object(capabilities)));
    result.push(member("serverInfo", Json::Object(info)));
    Json::Object(result)
}

/// The `tools/list` result over the tool definitions.
pub fn tools_list_result(tools: Vec<Json>) -> (r: Json)
    ensures
        r matches Json::Object(e) && e@.len() == 1 && e@[0].0@ == "tools"@,
{
    let mut result: Vec<(String, Json)> = Vec::new();
    result.push(member("tools", Json::Array(tools)));
    Json::Object(result)
}

/// A tool call's result: its text as the one content item, flagged as an
/// error or not.
pub fn tool_call_result(text_body: String, is_error: bool) -> (r: Json)
    ensures
        r matches Json::Object(e) && e@.len() == 2 && e@[0].0@ == "content"@ && e@[1].0@ == "isError"@ && e@[1].1
            == Json::Bool(is_error),
{
    let mut item: Vec<(String, Json)> = Vec::new();
    item.push(member("type", text("text")));
    item.push(member("text", Json::Text(text_body)));
    let mut content: Vec<Json> = Vec::new();
    content.push(Json::Object(item));
    let mut result: Vec<(String, Json)> = Vec::new();
    result.push(member("content", Json::Array(content)));
    result.push(member("isError", Json::Bool(is_error)));
    Json::Object(result)
}

/// `{"jsonrpc": "2.0", "id": id, "error": {"code": -32601, "message": "method not found"}}`.
pub fn method_not_found(id: Json) -> (r: Json)
    ensures
        r matches Json::Object(e) && e@.len() == 3 && e@[1].1 == id && e@[2].0@ == "error"@,
{
    let mut error: Vec<(String, Json)> = Vec::new();
    error.push(member("code", Json::Number(JsonNumber { text: String::from_str("-32601"), int: Some(-32601) })));
    error.push(member("message", text("method not found")));
    let mut entries: Vec<(String, Json)> = Vec::new();
    entries.push(member("jsonrpc", text("2.0")));
    entries.push(member("id", id));
    entries.push(member("error", Json::Object(error)));
    Json::Object(entries)
}

} // verus!
