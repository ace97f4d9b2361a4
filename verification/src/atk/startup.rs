//! What the kit must answer at startup: its protocol and server version, a
//! well-formed tool list, and a runtime snapshot that matches the
//! configuration.

use vstd::prelude::*;

use super::error::AtkError;
use super::json::{bool_of, field_bool, field_text, json_get, text_of, Json};
use super::{site_text, AtkConfig, RequiredCapability, SiteVerification};
use crate::text::{concat, insert_text_sorted, is_blank, str_eq, str_is_blank, str_starts_with, texts, texts_ascending};

verus! {

/// Member `key` of a value that may be absent.
pub open spec fn member(v: Option<Json>, key: Seq<char>) -> Option<Json> {
    match v {
        Some(x) => json_get(x, key),
        None => None,
    }
}

pub open spec fn deref_opt(v: Option<&Json>) -> Option<Json> {
    match v {
        Some(x) => Some(*x),
        None => None,
    }
}

/// The text of a value where it is a non-blank string.
pub open spec fn nonblank_text(v: Option<Json>) -> Option<Seq<char>> {
    match text_of(v) {
        Some(t) => if is_blank(t) {
            None
        } else {
            Some(t)
        },
        None => None,
    }
}

pub open spec fn protocol_version_of(init: Json) -> Option<Seq<char>> {
    nonblank_text(json_get(init, "protocolVersion"@))
}

pub open spec fn server_version_of(init: Json) -> Option<Seq<char>> {
    nonblank_text(member(json_get(init, "serverInfo"@), "version"@))
}

/// The expected version is set and differs from the actual one.
pub open spec fn version_differs(expected: Option<String>, actual: Seq<char>) -> bool {
    match expected {
        Some(e) => e@ != actual,
        None => false,
    }
}

/// The answer to `initialize` is accepted, and the server version is `sv`.
pub open spec fn initialize_outcome(c: AtkConfig, init: Json, r: Result<String, AtkError>) -> bool {
    let pv = protocol_version_of(init);
    let sv = server_version_of(init);
    if pv is None {
        r matches Err(AtkError::ProtocolResponseInvalid(m)) && m@ == "initialize.protocolVersion is missing"@
    } else if version_differs(c.expected_protocol_version, pv->0) {
        r matches Err(AtkError::ProtocolResponseInvalid(m)) && m@ == "expected protocol version Some(\""@
            + c.expected_protocol_version->0@ + "\"), got "@ + pv->0
    } else if sv is None {
        r matches Err(AtkError::ProtocolResponseInvalid(m)) && m@ == "initialize.serverInfo.version is missing"@
    } else if version_differs(c.expected_server_version, sv->0) {
        r matches Err(AtkError::VersionMismatch { expected, actual }) && expected == c.expected_server_version->0
            && actual@ == sv->0
    } else {
        r matches Ok(v) && v@ == sv->0
    }
}

fn nonblank_member<'a>(v: Option<&'a Json>, key: &str) -> (r: Option<&'a str>)
    ensures
        r matches Some(s) ==> nonblank_text(member(deref_opt(v), key@)) == Some(s@),
        r is None ==> nonblank_text(member(deref_opt(v), key@)) is None,
{
    match v {
        Some(x) => match x.get(key) {
            Some(y) => match y.as_str() {
                Some(s) => if str_is_blank(s) {
                    None
                } else {
                    Some(s)
                },
                None => None,
            },
            None => None,
        },
        None => None,
    }
}

/// Checks the answer to `initialize` against the expected protocol and
/// server versions, and gives the server version.
pub fn check_initialize(config: &AtkConfig, initialize: &Json) -> (r: Result<String, AtkError>)
    ensures
        initialize_outcome(*config, *initialize, r),
{
    let protocol_version = match nonblank_member(Some(initialize), "protocolVersion") {
        Some(v) => v,
        None => {
            return Err(AtkError::ProtocolResponseInvalid(String::from_str("initialize.protocolVersion is missing")));
        },
    };
    match &config.expected_protocol_version {
        Some(expected) => {
            if !str_eq(expected.as_str(), protocol_version) {
                let a = concat("expected protocol version Some(\"", expected.as_str());
                let b = concat(a.as_str(), "\"), got ");
                return Err(AtkError::ProtocolResponseInvalid(concat(b.as_str(), protocol_version)));
            }
        },
        None => {},
    }
    let server_version = match nonblank_member(initialize.get("serverInfo"), "version") {
        Some(v) => v,
        None => {
            return Err(AtkError::ProtocolResponseInvalid(String::from_str("initialize.serverInfo.version is missing")));
        },
    };
    match &config.expected_server_version {
        Some(expected) => {
            if !str_eq(expected.as_str(), server_version) {
                return Err(AtkError::VersionMismatch { expected: expected.clone(), actual: String::from_str(server_version) });
            }
        },
        None => {},
    }
    Ok(String::from_str(server_version))
}

/// The tools listed in a `tools/list` answer.
pub open spec fn listed_tools(result: Json) -> Option<Seq<Json>> {
    match json_get(result, "tools"@) {
        Some(Json::Array(items)) => Some(items@),
        _ => None,
    }
}

pub open spec fn tool_name(tool: Json) -> Option<Seq<char>> {
    nonblank_text(json_get(tool, "name"@))
}

/// The names of the tools, in listing order, where each has one.
pub open spec fn names_match(names: Seq<Seq<char>>, tools: Seq<Json>) -> bool {
    &&& names.len() == tools.len()
    &&& forall|i: int| 0 <= i < tools.len() ==> tool_name(#[trigger] tools[i]) == Some(names[i])
}

/// Reads the name of every listed tool.
pub fn parse_tools(result: &Json) -> (r: Result<Vec<String>, AtkError>)
    ensures
        listed_tools(*result) is None ==> (r matches Err(AtkError::ProtocolResponseInvalid(m)) && m@
            == "tools/list result.tools is missing"@),
        listed_tools(*result) matches Some(tools) ==> {
            &&& r is Ok <==> forall|i: int| 0 <= i < tools.len() ==> (#[trigger] tool_name(tools[i])) is Some
            &&& r matches Ok(names) ==> names_match(texts(names@), tools)
            &&& r matches Err(e) ==> e matches AtkError::ToolSchemaInvalid { tool, reason } && tool@ == "<unnamed>"@
                && reason@ == "name is missing"@
        },
{
    let tools = match result.get("tools") {
        Some(t) => match t.as_array() {
            Some(items) => items,
            None => {
                return Err(AtkError::ProtocolResponseInvalid(String::from_str("tools/list result.tools is missing")));
            },
        },
        None => {
            return Err(AtkError::ProtocolResponseInvalid(String::from_str("tools/list result.tools is missing")));
        },
    };
    let mut names: Vec<String> = Vec::new();
    let mut i: usize = 0;
    while i < tools.len()
        invariant
            i <= tools@.len(),
            names@.len() == i,
            listed_tools(*result) == Some(tools@),
            forall|k: int| 0 <= k < i ==> tool_name(#[trigger] tools@[k]) == Some(names@[k]@),
        decreases tools.len() - i,
    {
        match nonblank_member(Some(&tools[i]), "name") {
            Some(name) => {
                names.push(String::from_str(name));
            },
            None => {
                return Err(AtkError::ToolSchemaInvalid {
                    tool: String::from_str("<unnamed>"),
                    reason: String::from_str("name is missing"),
                });
            },
        }
        i = i + 1;
    }
    proof {
        assert(names_match(texts(names@), tools@));
    }
    Ok(names)
}

/// The position of the last tool named `n`, or -1.
pub open spec fn last_index(names: Seq<Seq<char>>, n: Seq<char>) -> int
    decreases names.len(),
{
    if names.len() == 0 {
        -1
    } else if names.last() == n {
        names.len() - 1
    } else {
        last_index(names.drop_last(), n)
    }
}

proof fn lemma_last_index(names: Seq<Seq<char>>, n: Seq<char>)
    ensures
        -1 <= last_index(names, n) < names.len(),
        last_index(names, n) >= 0 ==> names[last_index(names, n)] == n,
        last_index(names, n) == -1 <==> !names.contains(n),
    decreases names.len(),
{
    if names.len() > 0 {
        lemma_last_index(names.drop_last(), n);
        if names.last() != n && names.contains(n) {
            let k = choose|k: int| 0 <= k < names.len() && names[k] == n;
            assert(names.drop_last()[k] == n);
        }
        if names.drop_last().contains(n) {
            let k = choose|k: int| 0 <= k < names.len() - 1 && names.drop_last()[k] == n;
            assert(names[k] == n);
        }
    }
}

/// The tool schemas that are checked, with the properties each must have.
pub open spec fn schema_rules() -> Seq<(Seq<char>, Seq<Seq<char>>)> {
    seq![
        ("system_get_capabilities"@, seq![]),
        ("market_get_ticker"@, seq!["instId"@]),
        ("account_get_balance"@, seq![]),
        ("spot_place_order"@, seq!["instId"@, "tdMode"@, "side"@, "ordType"@, "sz"@]),
        ("spot_get_order"@, seq!["instId"@]),
        ("spot_cancel_order"@, seq!["instId"@]),
    ]
}

/// The member is present on an object of properties.
pub open spec fn has_property(properties: Option<Json>, field: Seq<char>) -> bool {
    match properties {
        Some(Json::Object(e)) => json_get(Json::Object(e), field) is Some,
        _ => false,
    }
}

/// The first required property that is missing.
pub open spec fn first_missing(properties: Option<Json>, required: Seq<Seq<char>>) -> Option<Seq<char>>
    decreases required.len(),
{
    if required.len() == 0 {
        None
    } else if !has_property(properties, required[0]) {
        Some(required[0])
    } else {
        first_missing(properties, required.drop_first())
    }
}

/// What is wrong with one tool's input schema.
pub open spec fn schema_reason(tool: Json, required: Seq<Seq<char>>) -> Option<Seq<char>> {
    match json_get(tool, "inputSchema"@) {
        Some(Json::Object(e)) => {
            let schema = Json::Object(e);
            if field_text(schema, "type"@) != Some("object"@) {
                Some("inputSchema.type must be object"@)
            } else {
                match first_missing(json_get(schema, "properties"@), required) {
                    Some(f) => Some("required property "@ + f + " is missing"@),
                    None => None,
                }
            }
        },
        _ => Some("inputSchema must be an object"@),
    }
}

/// The first checked tool, from rule `k` on, whose schema is wrong, with
/// what is wrong with it.
pub open spec fn schema_fault(tools: Seq<Json>, names: Seq<Seq<char>>, k: int) -> Option<(Seq<char>, Seq<char>)>
    decreases schema_rules().len() - k,
{
    if k < 0 || k >= schema_rules().len() {
        None
    } else {
        let (name, required) = schema_rules()[k];
        let at = last_index(names, name);
        if at >= 0 && schema_reason(tools[at], required) is Some {
            Some((name, schema_reason(tools[at], required)->0))
        } else {
            schema_fault(tools, names, k + 1)
        }
    }
}

fn rule(k: usize) -> (r: (&'static str, Vec<&'static str>))
    requires
        k < 6,
    ensures
        r.0@ == schema_rules()[k as int].0,
        r.1@.len() == schema_rules()[k as int].1.len(),
        forall|j: int| 0 <= j < r.1@.len() ==> (#[trigger] r.1@[j])@ == schema_rules()[k as int].1[j],
{
    let mut required: Vec<&'static str> = Vec::new();
    if k == 0 {
        ("system_get_capabilities", required)
    } else if k == 1 {
        required.push("instId");
        ("market_get_ticker", required)
    } else if k == 2 {
        ("account_get_balance", required)
    } else if k == 3 {
        required.push("instId");
        required.push("tdMode");
        required.push("side");
        required.push("ordType");
        required.push("sz");
        ("spot_place_order", required)
    } else if k == 4 {
        required.push("instId");
        ("spot_get_order", required)
    } else {
        required.push("instId");
        ("spot_cancel_order", required)
    }
}

fn find_last(names: &Vec<String>, n: &str) -> (r: Option<usize>)
    ensures
        r matches Some(i) ==> i as int == last_index(texts(names@), n@),
        r is None ==> last_index(texts(names@), n@) == -1,
{
    proof {
        lemma_last_index(texts(names@), n@);
    }
    let mut i: usize = names.len();
    proof {
        assert(texts(names@).subrange(0, i as int) =~= texts(names@));
    }
    while i > 0
        invariant
            i <= names@.len(),
            last_index(texts(names@), n@) == last_index(texts(names@).subrange(0, i as int), n@),
        decreases i,
    {
        let ghost t = texts(names@).subrange(0, i as int);
        proof {
            assert(t.drop_last() =~= texts(names@).subrange(0, i - 1));
        }
        if str_eq(names[i - 1].as_str(), n) {
            return Some(i - 1);
        }
        i = i - 1;
    }
    proof {
        assert(texts(names@).subrange(0, 0) =~= Seq::<Seq<char>>::empty());
    }
    None
}

fn check_schema(tool: &Json, required: &Vec<&'static str>) -> (r: Option<String>)
    ensures
        r matches Some(s) ==> schema_reason(*tool, required@.map_values(|x: &'static str| x@)) == Some(s@),
        r is None ==> schema_reason(*tool, required@.map_values(|x: &'static str| x@)) is None,
{
    let ghost req = required@.map_values(|x: &'static str| x@);
    let schema = match tool.get("inputSchema") {
        Some(s) => s,
        None => {
            return Some(String::from_str("inputSchema must be an object"));
        },
    };
    if !schema.is_object() {
        return Some(String::from_str("inputSchema must be an object"));
    }
    let is_object_type = match schema.text_field("type") {
        Some(t) => str_eq(t, "object"),
        None => false,
    };
    if !is_object_type {
        return Some(String::from_str("inputSchema.type must be object"));
    }
    let properties = schema.get("properties");
    let props_object = match properties {
        Some(p) => p.is_object(),
        None => false,
    };
    let mut j: usize = 0;
    proof {
        assert(req.subrange(0, req.len() as int) =~= req);
    }
    while j < required.len()
        invariant
            j <= required@.len(),
            req == required@.map_values(|x: &'static str| x@),
            first_missing(json_get(*schema, "properties"@), req) == first_missing(
                json_get(*schema, "properties"@),
                req.subrange(j as int, req.len() as int),
            ),
            props_object == (json_get(*schema, "properties"@) matches Some(Json::Object(_))),
            properties matches Some(p) ==> json_get(*schema, "properties"@) == Some(*p),
            properties is None ==> json_get(*schema, "properties"@) is None,
            schema_reason(*tool, req) == match first_missing(json_get(*schema, "properties"@), req) {
                Some(f) => Some("required property "@ + f + " is missing"@),
                None => None,
            },
        decreases required.len() - j,
    {
        let field = required[j];
        let present = match properties {
            Some(p) => props_object && p.get(field).is_some(),
            None => false,
        };
        proof {
            let rest = req.subrange(j as int, req.len() as int);
            assert(rest[0] == field@);
            assert(rest.drop_first() =~= req.subrange(j + 1, req.len() as int));
        }
        if !present {
            let a = concat("required property ", field);
            return Some(concat(a.as_str(), " is missing"));
        }
        j = j + 1;
    }
    proof {
        assert(req.subrange(required@.len() as int, req.len() as int) =~= Seq::<Seq<char>>::empty());
    }
    None
}

/// Checks the input schemas of the tools the client relies on, where they
/// are listed; a tool listed twice is judged by its last listing.
pub fn validate_tool_schemas(tools: &Vec<Json>, names: &Vec<String>) -> (r: Result<(), AtkError>)
    requires
        names_match(texts(names@), tools@),
    ensures
        r is Ok <==> schema_fault(tools@, texts(names@), 0) is None,
        r matches Err(e) ==> e matches AtkError::ToolSchemaInvalid { tool, reason } && schema_fault(
            tools@,
            texts(names@),
            0,
        ) == Some((tool@, reason@)),
{
    let mut k: usize = 0;
    while k < 6
        invariant
            k <= 6,
            names_match(texts(names@), tools@),
            schema_fault(tools@, texts(names@), 0) == schema_fault(tools@, texts(names@), k as int),
        decreases 6 - k,
    {
        let (name, required) = rule(k);
        proof {
            assert(required@.map_values(|x: &'static str| x@) =~= schema_rules()[k as int].1);
            lemma_last_index(texts(names@), name@);
        }
        match find_last(names, name) {
            Some(at) => {
                match check_schema(&tools[at], &required) {
                    Some(reason) => {
                        return Err(AtkError::ToolSchemaInvalid { tool: String::from_str(name), reason });
                    },
                    None => {},
                }
            },
            None => {},
        }
        k = k + 1;
    }
    Ok(())
}

/// The tool names, ascending, each once.
pub fn tool_set(names: &Vec<String>) -> (r: Vec<String>)
    ensures
        texts_ascending(texts(r@)),
        forall|s: Seq<char>| texts(r@).contains(s) <==> texts(names@).contains(s),
{
    let mut set: Vec<String> = Vec::new();
    let mut i: usize = 0;
    while i < names.len()
        invariant
            i <= names@.len(),
            texts_ascending(texts(set@)),
            forall|s: Seq<char>| texts(set@).contains(s) <==> texts(names@).subrange(0, i as int).contains(s),
        decreases names.len() - i,
    {
        insert_text_sorted(&mut set, names[i].clone());
        proof {
            let pre = texts(names@).subrange(0, i as int);
            let post = texts(names@).subrange(0, i + 1);
            assert(post =~= pre.push(names@[i as int]@));
            assert forall|s: Seq<char>| post.contains(s) <==> (pre.contains(s) || s == names@[i as int]@) by {
                if post.contains(s) {
                    let k = choose|k: int| 0 <= k < post.len() && post[k] == s;
                    if k < i as int {
                        assert(pre[k] == s);
                    }
                }
                if pre.contains(s) {
                    let k = choose|k: int| 0 <= k < pre.len() && pre[k] == s;
                    assert(post[k] == s);
                }
                if s == names@[i as int]@ {
                    assert(post[i as int] == s);
                }
            }
        }
        i = i + 1;
    }
    proof {
        assert(texts(names@).subrange(0, names@.len() as int) =~= texts(names@));
    }
    set
}

/// Whether some tool name begins with `news_`.
pub fn any_news_tool(names: &Vec<String>) -> (b: bool)
    ensures
        b == exists|i: int| 0 <= i < names@.len() && "news_"@.is_prefix_of(#[trigger] names@[i]@),
{
    let mut i: usize = 0;
    while i < names.len()
        invariant
            i <= names@.len(),
            forall|k: int| 0 <= k < i ==> !"news_"@.is_prefix_of(#[trigger] names@[k]@),
        decreases names.len() - i,
    {
        if str_starts_with(names[i].as_str(), "news_") {
            return true;
        }
        i = i + 1;
    }
    false
}

/// What the runtime snapshot shows of the kit's capabilities and mode.
#[derive(Clone, Copy, Debug, PartialEq, Eq, Structural)]
pub struct RuntimeCapabilities {
    pub market_data: bool,
    pub account_balance: bool,
    pub spot_order_placement: bool,
    pub spot_order_query: bool,
    pub spot_order_cancellation: bool,
    pub read_only: bool,
    pub demo: bool,
    pub has_auth: bool,
    pub site_verification: SiteVerification,
}

/// The runtime snapshot inside a capability answer: `data.capabilities`,
/// or `data` itself where that member is absent.
pub open spec fn runtime_snapshot(payload: Json) -> Option<Json> {
    match json_get(payload, "data"@) {
        Some(d) => match json_get(d, "capabilities"@) {
            Some(c) => Some(c),
            None => Some(d),
        },
        None => None,
    }
}

/// The snapshot reports the module as enabled.
pub open spec fn module_enabled(rt: Json, module: Seq<char>) -> bool {
    text_of(member(member(json_get(rt, "moduleAvailability"@), module), "status"@)) == Some("enabled"@)
}

/// The outcome of checking a runtime snapshot against the configuration
/// and the listed tool names.
pub open spec fn runtime_outcome(c: AtkConfig, names: Seq<Seq<char>>, rt: Json, r: Result<RuntimeCapabilities, AtkError>) -> bool {
    let demo = field_bool(rt, "demo"@);
    let read_only = field_bool(rt, "readOnly"@);
    let site = field_text(rt, "site"@);
    let auth = match field_bool(rt, "hasAuth"@) {
        Some(b) => b,
        None => false,
    };
    let market = names.contains("market_get_ticker"@) && module_enabled(rt, "market"@);
    let account = names.contains("account_get_balance"@) && module_enabled(rt, "account"@);
    let query = names.contains("spot_get_order"@) && module_enabled(rt, "spot"@);
    let place = !c.read_only && names.contains("spot_place_order"@) && module_enabled(rt, "spot"@);
    let cancel = !c.read_only && names.contains("spot_cancel_order"@) && module_enabled(rt, "spot"@);
    if demo is None {
        r matches Err(AtkError::ResponseInvalid(m)) && m@ == "capability snapshot demo is missing"@
    } else if read_only is None {
        r matches Err(AtkError::ResponseInvalid(m)) && m@ == "capability snapshot readOnly is missing"@
    } else if demo->0 != (c.mode is Demo) {
        r == Err::<RuntimeCapabilities, AtkError>(
            AtkError::ModeMismatch { expected_demo: c.mode is Demo, actual_demo: demo->0 },
        )
    } else if read_only->0 != c.read_only {
        r == Err::<RuntimeCapabilities, AtkError>(
            AtkError::ReadOnlyMismatch { expected: c.read_only, actual: read_only->0 },
        )
    } else if site is Some && site->0 != site_text(c.site) {
        r matches Err(AtkError::SiteMismatch { expected, actual }) && expected@ == site_text(c.site) && actual@ == site->0
    } else if c.mode is Live && !c.read_only && !auth {
        r matches Err(AtkError::InvalidConfig(m)) && m@ == "live mutation requires authenticated ATK capabilities"@
    } else if !market {
        r == Err::<RuntimeCapabilities, AtkError>(AtkError::CapabilityUnavailable(RequiredCapability::MarketData))
    } else if !account {
        r == Err::<RuntimeCapabilities, AtkError>(AtkError::CapabilityUnavailable(RequiredCapability::AccountBalance))
    } else if !query {
        r == Err::<RuntimeCapabilities, AtkError>(AtkError::CapabilityUnavailable(RequiredCapability::SpotOrderQuery))
    } else if !c.read_only && !place {
        r == Err::<RuntimeCapabilities, AtkError>(AtkError::CapabilityUnavailable(RequiredCapability::SpotOrderPlacement))
    } else if !c.read_only && !cancel {
        r == Err::<RuntimeCapabilities, AtkError>(
            AtkError::CapabilityUnavailable(RequiredCapability::SpotOrderCancellation),
        )
    } else {
        r == Ok::<RuntimeCapabilities, AtkError>(
            RuntimeCapabilities {
                market_data: market,
                account_balance: account,
                spot_order_placement: place,
                spot_order_query: query,
                spot_order_cancellation: cancel,
                read_only: read_only->0,
                demo: demo->0,
                has_auth: auth,
                site_verification: if site is Some {
                    SiteVerification::Verified
                } else {
                    SiteVerification::Unreported
                },
            },
        )
    }
}

fn names_contain(names: &Vec<String>, n: &str) -> (b: bool)
    ensures
        b == texts(names@).contains(n@),
{
    let mut i: usize = 0;
    while i < names.len()
        invariant
            i <= names@.len(),
            forall|k: int| 0 <= k < i ==> names@[k]@ != n@,
        decreases names.len() - i,
    {
        if str_eq(names[i].as_str(), n) {
            proof {
                assert(texts(names@)[i as int] == n@);
            }
            return true;
        }
        i = i + 1;
    }
    proof {
        if texts(names@).contains(n@) {
            let k = choose|k: int| 0 <= k < texts(names@).len() && texts(names@)[k] == n@;
            assert(names@[k]@ == n@);
        }
    }
    false
}

fn module_is_enabled(rt: &Json, module: &str) -> (b: bool)
    ensures
        b == module_enabled(*rt, module@),
{
    let status = match rt.get("moduleAvailability") {
        Some(m) => match m.get(module) {
            Some(x) => x.text_field("status"),
            None => None,
        },
        None => None,
    };
    match status {
        Some(s) => str_eq(s, "enabled"),
        None => false,
    }
}

/// Checks the runtime snapshot of a capability answer against the
/// configuration and the listed tools.
pub fn assess_runtime(config: &AtkConfig, names: &Vec<String>, payload: &Json) -> (r: Result<RuntimeCapabilities, AtkError>)
    ensures
        runtime_snapshot(*payload) is None ==> (r matches Err(AtkError::ResponseInvalid(m)) && m@
            == "capability snapshot data is missing"@),
        runtime_snapshot(*payload) matches Some(rt) ==> runtime_outcome(*config, texts(names@), rt, r),
{
    let data = match payload.get("data") {
        Some(d) => d,
        None => {
            return Err(AtkError::ResponseInvalid(String::from_str("capability snapshot data is missing")));
        },
    };
    let rt = match data.get("capabilities") {
        Some(c) => c,
        None => data,
    };
    let demo = match rt.bool_field("demo") {
        Some(b) => b,
        None => {
            return Err(AtkError::ResponseInvalid(String::from_str("capability snapshot demo is missing")));
        },
    };
    let read_only = match rt.bool_field("readOnly") {
        Some(b) => b,
        None => {
            return Err(AtkError::ResponseInvalid(String::from_str("capability snapshot readOnly is missing")));
        },
    };
    let expected_demo = config.mode.is_demo();
    if demo != expected_demo {
        return Err(AtkError::ModeMismatch { expected_demo, actual_demo: demo });
    }
    if read_only != config.read_only {
        return Err(AtkError::ReadOnlyMismatch { expected: config.read_only, actual: read_only });
    }
    let site = rt.text_field("site");
    let site_verification = match site {
        Some(actual) => {
            if !str_eq(actual, config.site.as_str()) {
                return Err(AtkError::SiteMismatch {
                    expected: String::from_str(config.site.as_str()),
                    actual: String::from_str(actual),
                });
            }
            SiteVerification::Verified
        },
        None => SiteVerification::Unreported,
    };
    let has_auth = match rt.bool_field("hasAuth") {
        Some(b) => b,
        None => false,
    };
    if !expected_demo && !config.read_only && !has_auth {
        return Err(AtkError::InvalidConfig(String::from_str("live mutation requires authenticated ATK capabilities")));
    }
    let spot = module_is_enabled(rt, "spot");
    let market_data = names_contain(names, "market_get_ticker") && module_is_enabled(rt, "market");
    let account_balance = names_contain(names, "account_get_balance") && module_is_enabled(rt, "account");
    let spot_order_query = names_contain(names, "spot_get_order") && spot;
    let spot_order_placement = !config.read_only && names_contain(names, "spot_place_order") && spot;
    let spot_order_cancellation = !config.read_only && names_contain(names, "spot_cancel_order") && spot;
    if !market_data {
        return Err(AtkError::CapabilityUnavailable(RequiredCapability::MarketData));
    }
    if !account_balance {
        return Err(AtkError::CapabilityUnavailable(RequiredCapability::AccountBalance));
    }
    if !spot_order_query {
        return Err(AtkError::CapabilityUnavailable(RequiredCapability::SpotOrderQuery));
    }
    if !config.read_only {
        if !spot_order_placement {
            return Err(AtkError::CapabilityUnavailable(RequiredCapability::SpotOrderPlacement));
        }
        if !spot_order_cancellation {
            return Err(AtkError::CapabilityUnavailable(RequiredCapability::SpotOrderCancellation));
        }
    }
    Ok(RuntimeCapabilities {
        market_data,
        account_balance,
        spot_order_placement,
        spot_order_query,
        spot_order_cancellation,
        read_only,
        demo,
        has_auth,
        site_verification,
    })
}

} // verus!
