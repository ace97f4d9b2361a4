//! A client of the kit over an MCP transport. It refuses to start unless the
//! kit reports the configured mode, site and the capabilities the client
//! relies on, and it never sends an order mutation that the startup did
//! not find available.

use vstd::prelude::*;

use super::error::{atk_error_text, AtkError, McpError};
use super::json::{decode_json, field_bool, json_get, json_is_text, Json};
use super::orders::{
    AccountSnapshot, CancelOrderRequest, CancellationOutcome, MarketSnapshot, OrderQuery, OrderStatus,
    PlacementOutcome, SpotOrderRequest,
};
use super::replies::{
    cancellation_outcome, mutation_unknown_reason, parse_account_snapshot, placement_outcome, unknown_reason, parse_cancellation, parse_market_snapshot, parse_order_status,
    parse_placement, rpc_result, take_member, tool_rejection,
};
use super::startup::{
    any_news_tool, assess_runtime, check_initialize, initialize_outcome, listed_tools, names_match, parse_tools,
    runtime_outcome, runtime_snapshot, schema_fault, tool_set, validate_tool_schemas, RuntimeCapabilities,
};
use crate::text::texts;
use super::{config_fault, AtkConfig, AtkHealth, CapabilityReport, HealthReport, RequiredCapability, SiteVerification, TradingMode};
use crate::domain::error::{domain_error_text, DomainError};
use crate::domain::instrument::{valid_symbol, Instrument};
use crate::text::concat;

verus! {

/// The kit's MCP connection, implemented by its users (a child process
/// speaking JSON-RPC over stdio, or a fixture). Timeouts are in
/// milliseconds.
pub trait McpTransport {
    fn request(&self, method: &str, params: Json, timeout: u64) -> Result<Json, McpError>;

    fn notify(&self, method: &str, params: Json) -> Result<(), McpError>;

    fn is_alive(&self) -> bool;

    fn shutdown(&self) -> Result<(), McpError>;
}

/// A transport that can start the kit itself.
pub trait SpawnTransport: Sized {
    fn spawn(executable: &str, arguments: &Vec<String>) -> Result<Self, McpError>;
}

pub struct AtkClient<T: McpTransport> {
    transport: T,
    config: AtkConfig,
    health: HealthReport,
    capabilities: CapabilityReport,
}

/// A capability the report shows as available.
pub open spec fn has_capability(c: CapabilityReport, cap: RequiredCapability) -> bool {
    match cap {
        RequiredCapability::MarketData => c.market_data,
        RequiredCapability::AccountBalance => c.account_balance,
        RequiredCapability::SpotOrderQuery => c.spot_order_query,
        RequiredCapability::SpotOrderPlacement => c.spot_order_placement,
        RequiredCapability::SpotOrderCancellation => c.spot_order_cancellation,
    }
}

/// What holds of every client: mutations are available only where the
/// configuration allows them, and a ready client has every capability it
/// needs and runs in the configured mode.
pub open spec fn client_consistent(config: AtkConfig, health: HealthReport, caps: CapabilityReport) -> bool {
    &&& caps.spot_order_placement ==> !config.read_only
    &&& caps.spot_order_cancellation ==> !config.read_only
    &&& caps.execution_ready == (caps.market_data && caps.account_balance && caps.spot_order_query
        && caps.spot_order_placement && caps.spot_order_cancellation)
    &&& health.status == AtkHealth::Ready ==> {
        &&& caps.market_data && caps.account_balance && caps.spot_order_query
        &&& !config.read_only ==> caps.spot_order_placement && caps.spot_order_cancellation
        &&& caps.read_only == config.read_only
        &&& caps.demo == (config.mode is Demo)
    }
}

/// The health reason of a ready client: none where the kit reported its
/// site, else a note that it did not.
pub open spec fn ready_reason(site: SiteVerification, reason: Option<String>) -> bool {
    match site {
        SiteVerification::Verified => reason is None,
        SiteVerification::Unreported => reason matches Some(m) && m@ == "ATK did not report its site in the capability snapshot"@,
    }
}

/// An error in exchanging a message with the kit rather than a verdict on
/// its content: the transport failed, the reply was not a JSON-RPC result,
/// or the tool refused or answered without a payload.
pub open spec fn exchange_error(e: AtkError) -> bool {
    e is Transport || e is ProtocolResponseInvalid || e is ProtocolError || e is ResponseInvalid || e is ToolRejected
}

/// The kit lists its tools under these names, each named, and every
/// schema the client relies on is in order.
pub open spec fn tools_accepted(tools_reply: Json, names: Seq<Seq<char>>) -> bool {
    listed_tools(tools_reply) matches Some(list) && names_match(names, list) && schema_fault(list, names, 0) is None
}

/// The capability report built from the tool names and the runtime
/// snapshot's verdict.
pub open spec fn report_of(names: Seq<Seq<char>>, rt: RuntimeCapabilities, caps: CapabilityReport) -> bool {
    &&& forall|t: Seq<char>| texts(caps.tools@).contains(t) <==> names.contains(t)
    &&& caps.news == exists|i: int| 0 <= i < names.len() && "news_"@.is_prefix_of(#[trigger] names[i])
    &&& caps.market_data == rt.market_data
    &&& caps.account_balance == rt.account_balance
    &&& caps.spot_order_placement == rt.spot_order_placement
    &&& caps.spot_order_query == rt.spot_order_query
    &&& caps.spot_order_cancellation == rt.spot_order_cancellation
    &&& caps.read_only == rt.read_only
    &&& caps.demo == rt.demo
    &&& caps.has_auth == rt.has_auth
    &&& caps.site_verification == rt.site_verification
}

/// Startup accepted the kit's replies, in order: the `initialize` reply
/// with the server version the report keeps, the tool list under `names`,
/// and the capability snapshot whose verdict the report carries.
pub open spec fn startup_accepted(c: AtkConfig, init: Json, tools_reply: Json, payload: Json, names: Seq<Seq<char>>, caps: CapabilityReport) -> bool {
    &&& initialize_outcome(c, init, Ok(caps.server_version))
    &&& tools_accepted(tools_reply, names)
    &&& runtime_snapshot(payload) matches Some(snap) && exists|rt: RuntimeCapabilities|
        runtime_outcome(c, names, snap, Ok(rt)) && #[trigger] report_of(names, rt, caps)
}

/// A verdict refusal comes from the stage that gives it, after every earlier
/// stage accepted its reply: a version from `initialize`, a tool schema from
/// the tool list, a mode, read-only or site mismatch from the capability
/// snapshot.
pub open spec fn startup_refusal(c: AtkConfig, e: AtkError) -> bool {
    &&& e is VersionMismatch ==> exists|init: Json| #[trigger] initialize_outcome(c, init, Err(e))
    &&& e is ToolSchemaInvalid ==> exists|init: Json, v: String, tools_reply: Json|
        #[trigger] initialize_outcome(c, init, Ok(v)) && #[trigger] tools_refused(tools_reply, e)
    &&& (e is ModeMismatch || e is ReadOnlyMismatch || e is SiteMismatch) ==> exists|
        init: Json,
        v: String,
        tools_reply: Json,
        names: Seq<Seq<char>>,
        snap: Json,
    |
        #[trigger] initialize_outcome(c, init, Ok(v)) && #[trigger] tools_accepted(tools_reply, names)
            && #[trigger] runtime_outcome(c, names, snap, Err(e))
}

/// `e` refuses the tool list over the tool's schema, with the reason.
pub open spec fn schema_error(e: AtkError, tool: Seq<char>, reason: Seq<char>) -> bool {
    match e {
        AtkError::ToolSchemaInvalid { tool: t, reason: r } => t@ == tool && r@ == reason,
        _ => false,
    }
}

/// The tool list refuses with `e`: a listed tool without a name, or the
/// first schema out of order.
pub open spec fn tools_refused(tools_reply: Json, e: AtkError) -> bool {
    match listed_tools(tools_reply) {
        None => false,
        Some(list) => {
            ||| (exists|i: int| 0 <= i < list.len() && (#[trigger] super::startup::tool_name(list[i])) is None)
                && schema_error(e, "<unnamed>"@, "name is missing"@)
            ||| exists|names: Seq<Seq<char>>|
                #[trigger] names_match(names, list) && schema_fault(list, names, 0) is Some && {
                    let (t, why) = schema_fault(list, names, 0)->0;
                    schema_error(e, t, why)
                }
        },
    }
}

/// The refusal of a dead transport.
pub open spec fn not_alive(e: AtkError) -> bool {
    e matches AtkError::Unavailable(m) && m@ == "MCP process is not alive"@
}

/// Why a call is refused before anything is sent: the transport is dead,
/// the client is not ready, or (when ready) the capability is missing.
pub open spec fn availability_refusal(health: HealthReport, caps: CapabilityReport, cap: RequiredCapability, e: AtkError) -> bool {
    ||| not_alive(e)
    ||| e is NotReady && health.status != AtkHealth::Ready
    ||| e == AtkError::CapabilityUnavailable(cap) && health.status == AtkHealth::Ready && !has_capability(caps, cap)
}

/// A reply that is either the tool's answer or an error in the exchange.
pub open spec fn exchange_reply<A>(reply: Result<A, AtkError>) -> bool {
    reply matches Err(e) ==> exchange_error(e)
}

/// An unknown cancellation outcome for the client order ID, with the reason.
pub open spec fn unknown_cancellation(o: CancellationOutcome, client: Seq<char>, reason: Seq<char>) -> bool {
    o matches CancellationOutcome::Unknown { client_order_id, reason: r } && client_order_id@ == client && r@ == reason
}

/// An unknown placement outcome for the client order ID, with the reason.
pub open spec fn unknown_placement(o: PlacementOutcome, client: Seq<char>, reason: Seq<char>) -> bool {
    o matches PlacementOutcome::Unknown { client_order_id, reason: r } && client_order_id@ == client && r@ == reason
}

/// What the kit's reply to a sent cancellation comes to: the answer read;
/// an unknown outcome where the answer cannot be read; the tool's refusal
/// with its code and message; or, where the exchange failed, an unknown
/// outcome carrying why.
pub open spec fn cancellation_reply(client: Seq<char>, reply: Result<Result<Json, (String, String)>, AtkError>, o: CancellationOutcome) -> bool {
    match reply {
        Ok(Ok(payload)) => exists|r: Result<CancellationOutcome, AtkError>| #[trigger] cancellation_outcome(payload, r)
            && match r {
            Ok(x) => o == x,
            Err(e) => unknown_cancellation(o, client, "invalid cancellation response: "@ + atk_error_text(e)),
        },
        Ok(Err((code, message))) => o == (CancellationOutcome::Rejected { code, message }),
        Err(e) => unknown_cancellation(o, client, unknown_reason(e)),
    }
}

/// What the kit's reply to a sent placement comes to, as for a cancellation.
pub open spec fn placement_reply(client: Seq<char>, reply: Result<Result<Json, (String, String)>, AtkError>, o: PlacementOutcome) -> bool {
    match reply {
        Ok(Ok(payload)) => exists|r: Result<PlacementOutcome, AtkError>| #[trigger] placement_outcome(payload, r)
            && match r {
            Ok(x) => o == x,
            Err(e) => unknown_placement(o, client, "invalid placement response: "@ + atk_error_text(e)),
        },
        Ok(Err((code, message))) => o == (PlacementOutcome::Rejected { code, message }),
        Err(e) => unknown_placement(o, client, unknown_reason(e)),
    }
}

/// The client order ID an unknown cancellation is reported under.
pub open spec fn cancellation_client(request: CancelOrderRequest) -> Seq<char> {
    match request.client_order_id {
        Some(c) => c@,
        None => "unknown-client-order"@,
    }
}

/// Reads the kit's reply to a cancellation sent for `client_order_id`.
pub fn cancellation_from_reply(client_order_id: String, reply: Result<Result<Json, (String, String)>, AtkError>) -> (o: CancellationOutcome)
    ensures
        cancellation_reply(client_order_id@, reply, o),
{
    match reply {
        Ok(Ok(payload)) => match parse_cancellation(&payload) {
            Ok(outcome) => outcome,
            Err(error) => {
                let text = error.message();
                CancellationOutcome::Unknown {
                    client_order_id,
                    reason: concat("invalid cancellation response: ", text.as_str()),
                }
            },
        },
        Ok(Err((code, message))) => CancellationOutcome::Rejected { code, message },
        Err(error) => CancellationOutcome::Unknown { client_order_id, reason: mutation_unknown_reason(&error) },
    }
}

/// Reads the kit's reply to a placement sent for `client_order_id`.
pub fn placement_from_reply(client_order_id: String, reply: Result<Result<Json, (String, String)>, AtkError>) -> (o: PlacementOutcome)
    ensures
        placement_reply(client_order_id@, reply, o),
{
    match reply {
        Ok(Ok(payload)) => match parse_placement(&payload) {
            Ok(outcome) => outcome,
            Err(error) => {
                let text = error.message();
                PlacementOutcome::Unknown {
                    client_order_id,
                    reason: concat("invalid placement response: ", text.as_str()),
                }
            },
        },
        Ok(Err((code, message))) => PlacementOutcome::Rejected { code, message },
        Err(error) => PlacementOutcome::Unknown { client_order_id, reason: mutation_unknown_reason(&error) },
    }
}

fn text_entry(key: &str, value: &str) -> (e: (String, Json))
    ensures
        e.0@ == key@,
        e.1 matches Json::Text(t) && t@ == value@,
{
    (String::from_str(key), Json::Text(String::from_str(value)))
}

/// The `initialize` request's parameters: the protocol version this client
/// speaks, no client capabilities, and the client's name and version.
pub open spec fn initialize_request(v: Json) -> bool {
    &&& v matches Json::Object(p)
    &&& p@.len() == 3
    &&& p@[0].0@ == "protocolVersion"@
    &&& json_is_text(p@[0].1, "2025-06-18"@)
    &&& p@[1].0@ == "capabilities"@
    &&& p@[1].1 matches Json::Object(c)
    &&& c@.len() == 0
    &&& p@[2].0@ == "clientInfo"@
    &&& p@[2].1 matches Json::Object(ci)
    &&& ci@.len() == 2
    &&& ci@[0].0@ == "name"@
    &&& json_is_text(ci@[0].1, "prooftrade"@)
    &&& ci@[1].0@ == "version"@
    &&& json_is_text(ci@[1].1, "0.1.0"@)
}

fn initialize_params() -> (v: Json)
    ensures
        initialize_request(v),
{
    let mut client_info: Vec<(String, Json)> = Vec::new();
    client_info.push(text_entry("name", "prooftrade"));
    client_info.push(text_entry("version", "0.1.0"));
    let mut params: Vec<(String, Json)> = Vec::new();
    params.push(text_entry("protocolVersion", "2025-06-18"));
    params.push((String::from_str("capabilities"), Json::empty_object()));
    params.push((String::from_str("clientInfo"), Json::Object(client_info)));
    Json::Object(params)
}

fn empty_report() -> (c: CapabilityReport)
    ensures
        !c.market_data && !c.account_balance && !c.spot_order_placement && !c.spot_order_query
            && !c.spot_order_cancellation && !c.execution_ready,
{
    CapabilityReport {
        server_version: String::new(),
        tools: Vec::new(),
        market_data: false,
        account_balance: false,
        spot_order_placement: false,
        spot_order_query: false,
        spot_order_cancellation: false,
        news: false,
        read_only: false,
        demo: false,
        has_auth: false,
        site_verification: SiteVerification::Unreported,
        execution_ready: false,
    }
}

impl<T: McpTransport> AtkClient<T> {
    #[verifier::type_invariant]
    spec fn consistent(self) -> bool {
        client_consistent(self.config, self.health, self.capabilities)
    }

    pub closed spec fn spec_config(&self) -> AtkConfig {
        self.config
    }

    pub closed spec fn spec_health(&self) -> HealthReport {
        self.health
    }

    pub closed spec fn spec_capabilities(&self) -> CapabilityReport {
        self.capabilities
    }

    /// Checks the configuration and the transport, then runs the startup
    /// handshake; a client is given only once the kit has been found ready.
    /// `live_armed` tells whether the operator armed live mutation.
    pub fn connect(transport: T, config: AtkConfig, live_armed: bool) -> (r: Result<AtkClient<T>, AtkError>)
        ensures
            config_fault(config, live_armed) matches Some(m) ==> (r matches Err(AtkError::InvalidConfig(x)) && x@ == m),
            r matches Ok(c) ==> c.spec_health().status == AtkHealth::Ready && c.spec_config() == config
                && ready_reason(c.spec_capabilities().site_verification, c.spec_health().reason),
            r matches Ok(c) ==> exists|init: Json, tools_reply: Json, payload: Json, names: Seq<Seq<char>>|
                #[trigger] startup_accepted(config, init, tools_reply, payload, names, c.spec_capabilities()),
            r matches Err(e) ==> startup_refusal(config, e),
            r matches Err(AtkError::Unavailable(m)) ==> m@ == "MCP process is not alive"@,
    {
        match config.validate(live_armed) {
            Ok(()) => {},
            Err(e) => {
                return Err(e);
            },
        }
        let alive = transport.is_alive();
        Self::start(transport, config, alive)
    }

    /// Starts a client over a transport that reported whether its process
    /// is alive: refused as unavailable when it is not, else the startup
    /// handshake decides.
    pub fn start(transport: T, config: AtkConfig, alive: bool) -> (r: Result<AtkClient<T>, AtkError>)
        ensures
            !alive ==> (r matches Err(AtkError::Unavailable(m)) && m@ == "MCP process is not alive"@),
            r matches Ok(c) ==> c.spec_health().status == AtkHealth::Ready && c.spec_config() == config
                && ready_reason(c.spec_capabilities().site_verification, c.spec_health().reason),
            r matches Ok(c) ==> exists|init: Json, tools_reply: Json, payload: Json, names: Seq<Seq<char>>|
                #[trigger] startup_accepted(config, init, tools_reply, payload, names, c.spec_capabilities()),
            r matches Err(e) ==> startup_refusal(config, e),
            r matches Err(AtkError::Unavailable(m)) ==> m@ == "MCP process is not alive"@,
    {
        if !alive {
            let m = String::from_str("MCP process is not alive");
            proof {
                reveal_strlit("MCP process is not alive");
            }
            return Err(AtkError::Unavailable(m));
        }
        let mut client = AtkClient {
            transport,
            config,
            health: HealthReport { status: AtkHealth::Starting, reason: None },
            capabilities: empty_report(),
        };
        match client.startup() {
            Ok(()) => Ok(client),
            Err(error) => {
                let health = HealthReport { status: AtkHealth::Unavailable, reason: Some(error.message()) };
                proof {
                    use_type_invariant(&client);
                }
                client.set_health(health);
                Err(error)
            },
        }
    }

    pub fn health(&self) -> (h: &HealthReport)
        ensures
            *h == self.spec_health(),
    {
        &self.health
    }

    /// What the kit reported; whatever happened since, a placement or
    /// cancellation capability is never there for a read-only client, and a
    /// ready client has every capability it needs in the configured mode.
    pub fn capabilities(&self) -> (c: &CapabilityReport)
        ensures
            *c == self.spec_capabilities(),
            client_consistent(self.spec_config(), self.spec_health(), *c),
    {
        proof {
            use_type_invariant(self);
        }
        &self.capabilities
    }

    pub fn trading_mode(&self) -> (m: TradingMode)
        ensures
            m == self.spec_config().mode,
    {
        self.config.mode
    }

    /// The handshake: `initialize`, the version checks, the tool list and
    /// its schemas, and the runtime capability snapshot.
    fn startup(&mut self) -> (r: Result<(), AtkError>)
        requires
            old(self).spec_health().status != AtkHealth::Ready,
        ensures
            final(self).spec_config() == old(self).spec_config(),
            r is Ok ==> final(self).spec_health().status == AtkHealth::Ready,
            r is Ok ==> ready_reason(final(self).spec_capabilities().site_verification, final(self).spec_health().reason),
            r is Ok ==> exists|init: Json, tools_reply: Json, payload: Json, names: Seq<Seq<char>>|
                #[trigger] startup_accepted(final(self).spec_config(), init, tools_reply, payload, names, final(self).spec_capabilities()),
            r matches Err(e) ==> startup_refusal(old(self).spec_config(), e),
            r matches Err(e) ==> !(e is Unavailable),
    {
        let initialize = match self.request_rpc_with_timeout("initialize", initialize_params(), self.config.startup_timeout) {
            Ok(v) => v,
            Err(e) => {
                return Err(e);
            },
        };
        let server_version = match check_initialize(&self.config, &initialize) {
            Ok(v) => v,
            Err(e) => {
                proof {
                    assert(initialize_outcome(self.spec_config(), initialize, Err(e)));
                }
                return Err(e);
            },
        };
        let ghost version = server_version;
        match self.transport.notify("notifications/initialized", Json::empty_object()) {
            Ok(()) => {},
            Err(e) => {
                return Err(AtkError::Transport(e));
            },
        }
        let tools_result = match self.request_rpc_with_timeout("tools/list", Json::empty_object(), self.config.startup_timeout) {
            Ok(v) => v,
            Err(e) => {
                return Err(e);
            },
        };
        let names = match parse_tools(&tools_result) {
            Ok(n) => n,
            Err(e) => {
                proof {
                    assert(initialize_outcome(self.spec_config(), initialize, Ok(version)));
                    if e is ToolSchemaInvalid {
                        let list = listed_tools(tools_result)->0;
                        assert(!forall|i: int| 0 <= i < list.len() ==> (#[trigger] super::startup::tool_name(list[i])) is Some);
                        assert(tools_refused(tools_result, e));
                    }
                }
                return Err(e);
            },
        };
        let tools = match tools_result.get("tools") {
            Some(t) => match t.as_array() {
                Some(items) => items,
                None => {
                    return Err(AtkError::ProtocolResponseInvalid(String::from_str("tools/list result.tools is missing")));
                },
            },
            None => {
                return Err(AtkError::ProtocolResponseInvalid(String::from_str("tools/list result.tools is missing")));
            },
        };
        match validate_tool_schemas(tools, &names) {
            Ok(()) => {},
            Err(e) => {
                proof {
                    assert(initialize_outcome(self.spec_config(), initialize, Ok(version)));
                    assert(names_match(texts(names@), tools@));
                    assert(tools_refused(tools_result, e));
                }
                return Err(e);
            },
        }
        proof {
            assert(tools_accepted(tools_result, texts(names@)));
        }
        let tool_names = tool_set(&names);
        let news = any_news_tool(&names);
        let payload = match self.call_tool_with_timeout("system_get_capabilities", Json::empty_object(), self.config.startup_timeout) {
            Ok(p) => p,
            Err(e) => {
                return Err(e);
            },
        };
        let runtime = match assess_runtime(&self.config, &names, &payload) {
            Ok(rt) => rt,
            Err(e) => {
                proof {
                    assert(initialize_outcome(self.spec_config(), initialize, Ok(version)));
                    if runtime_snapshot(payload) is Some {
                        assert(runtime_outcome(self.spec_config(), texts(names@), runtime_snapshot(payload)->0, Err(e)));
                    }
                }
                return Err(e);
            },
        };
        let execution_ready = runtime.market_data && runtime.account_balance && runtime.spot_order_query
            && runtime.spot_order_placement && runtime.spot_order_cancellation;
        let reason = match runtime.site_verification {
            SiteVerification::Unreported => Some(String::from_str("ATK did not report its site in the capability snapshot")),
            SiteVerification::Verified => None,
        };
        let capabilities = CapabilityReport {
            server_version,
            tools: tool_names,
            market_data: runtime.market_data,
            account_balance: runtime.account_balance,
            spot_order_placement: runtime.spot_order_placement,
            spot_order_query: runtime.spot_order_query,
            spot_order_cancellation: runtime.spot_order_cancellation,
            news,
            read_only: runtime.read_only,
            demo: runtime.demo,
            has_auth: runtime.has_auth,
            site_verification: runtime.site_verification,
            execution_ready,
        };
        let health = HealthReport { status: AtkHealth::Ready, reason };
        proof {
            assert forall|i: int| 0 <= i < names@.len() implies (texts(names@)[i] == #[trigger] names@[i]@) by {}
            assert(report_of(texts(names@), runtime, capabilities));
        }
        self.set_capabilities(capabilities);
        self.set_health(health);
        proof {
            assert(startup_accepted(self.spec_config(), initialize, tools_result, payload, texts(names@), self.spec_capabilities()));
        }
        Ok(())
    }

    fn set_health(&mut self, health: HealthReport)
        requires
            client_consistent(old(self).spec_config(), health, old(self).spec_capabilities()),
        ensures
            final(self).spec_config() == old(self).spec_config(),
            final(self).spec_health() == health,
            final(self).spec_capabilities() == old(self).spec_capabilities(),
    {
        self.health = health;
    }

    fn set_capabilities(&mut self, capabilities: CapabilityReport)
        requires
            client_consistent(old(self).spec_config(), old(self).spec_health(), capabilities),
        ensures
            final(self).spec_config() == old(self).spec_config(),
            final(self).spec_health() == old(self).spec_health(),
            final(self).spec_capabilities() == capabilities,
    {
        self.capabilities = capabilities;
    }

    fn request_rpc_with_timeout(&self, method: &str, params: Json, timeout: u64) -> (r: Result<Json, AtkError>)
        ensures
            r matches Err(e) ==> exchange_error(e),
    {
        match self.transport.request(method, params, timeout) {
            Ok(response) => rpc_result(response),
            Err(e) => Err(AtkError::Transport(e)),
        }
    }

    /// A tool's payload: its structured content where that is an object,
    /// or else the JSON text of its first content item that has one.
    fn tool_payload(&self, result: Json) -> (r: Result<Json, AtkError>)
        ensures
            r matches Err(e) ==> exchange_error(e),
    {
        let structured = match result.get("structuredContent") {
            Some(p) => p.is_object(),
            None => false,
        };
        if structured {
            return match take_member(result, "structuredContent") {
                Some(p) => Ok(p),
                None => Err(AtkError::ResponseInvalid(String::from_str("tool result contains no structured content"))),
            };
        }
        let items = match result.get("content") {
            Some(c) => c.as_array(),
            None => None,
        };
        match items {
            Some(items) => {
                let mut i: usize = 0;
                while i < items.len()
                    decreases items.len() - i,
                {
                    match items[i].text_field("text") {
                        Some(text) => {
                            return match decode_json(text) {
                                Ok(v) => Ok(v),
                                Err(message) => Err(AtkError::ResponseInvalid(message)),
                            };
                        },
                        None => {},
                    }
                    i = i + 1;
                }
            },
            None => {},
        }
        Err(AtkError::ResponseInvalid(String::from_str("tool result contains no structured content")))
    }

    fn call_tool_result_with_timeout(&self, name: &str, arguments: Json, timeout: u64) -> (r: Result<Result<Json, (String, String)>, AtkError>)
        ensures
            r matches Err(e) ==> exchange_error(e),
    {
        let mut params: Vec<(String, Json)> = Vec::new();
        params.push(text_entry("name", name));
        params.push((String::from_str("arguments"), arguments));
        let result = match self.request_rpc_with_timeout("tools/call", Json::Object(params), timeout) {
            Ok(v) => v,
            Err(e) => {
                return Err(e);
            },
        };
        let is_error = match result.bool_field("isError") {
            Some(b) => b,
            None => false,
        };
        let wrapped = result.get("structuredContent").is_some() || result.get("content").is_some();
        let payload = if wrapped {
            match self.tool_payload(result) {
                Ok(p) => p,
                Err(e) => {
                    return Err(e);
                },
            }
        } else {
            result
        };
        let refused = match payload.bool_field("ok") {
            Some(ok) => !ok,
            None => false,
        };
        if is_error || refused {
            return Ok(Err(tool_rejection(&payload)));
        }
        Ok(Ok(payload))
    }

    fn call_tool_with_timeout(&self, name: &str, arguments: Json, timeout: u64) -> (r: Result<Json, AtkError>)
        ensures
            r matches Err(e) ==> exchange_error(e),
    {
        match self.call_tool_result_with_timeout(name, arguments, timeout) {
            Ok(Ok(payload)) => Ok(payload),
            Ok(Err((code, message))) => Err(AtkError::ToolRejected { tool: String::from_str(name), code, message }),
            Err(e) => Err(e),
        }
    }

    fn call_tool(&self, name: &str, arguments: Json) -> (r: Result<Json, AtkError>) {
        self.call_tool_with_timeout(name, arguments, self.config.request_timeout)
    }

    /// Refuses unless the transport is alive and the client is ready; a dead
    /// transport marks the client unavailable.
    fn ensure_available(&mut self) -> (r: Result<(), AtkError>)
        ensures
            final(self).spec_config() == old(self).spec_config(),
            final(self).spec_capabilities() == old(self).spec_capabilities(),
            r matches Err(e) ==> not_alive(e) || (e is NotReady && old(self).spec_health().status != AtkHealth::Ready),
            r is Ok ==> final(self).spec_health() == old(self).spec_health() && old(self).spec_health().status
                == AtkHealth::Ready,
            old(self).spec_health().status != AtkHealth::Ready ==> r is Err,
    {
        if !self.transport.is_alive() {
            let health = HealthReport {
                status: AtkHealth::Unavailable,
                reason: Some(String::from_str("MCP process is not alive")),
            };
            proof {
                use_type_invariant(&*self);
            }
            self.set_health(health);
            return Err(AtkError::Unavailable(String::from_str("MCP process is not alive")));
        }
        if self.health.status != AtkHealth::Ready {
            return Err(AtkError::NotReady);
        }
        Ok(())
    }

    /// Refuses unless the client is available and the capability is there.
    fn ensure_read(&mut self, capability: RequiredCapability) -> (r: Result<(), AtkError>)
        ensures
            final(self).spec_config() == old(self).spec_config(),
            final(self).spec_capabilities() == old(self).spec_capabilities(),
            r is Ok ==> has_capability(old(self).spec_capabilities(), capability) && old(self).spec_health().status
                == AtkHealth::Ready,
            r matches Err(e) ==> availability_refusal(old(self).spec_health(), old(self).spec_capabilities(), capability, e),
            !has_capability(old(self).spec_capabilities(), capability) ==> r is Err,
            old(self).spec_health().status == AtkHealth::Ready && has_capability(old(self).spec_capabilities(), capability)
                ==> (r is Ok || (r matches Err(e) && not_alive(e))),
    {
        match self.ensure_available() {
            Ok(()) => {},
            Err(e) => {
                return Err(e);
            },
        }
        let available = match capability {
            RequiredCapability::MarketData => self.capabilities.market_data,
            RequiredCapability::AccountBalance => self.capabilities.account_balance,
            RequiredCapability::SpotOrderQuery => self.capabilities.spot_order_query,
            RequiredCapability::SpotOrderPlacement => self.capabilities.spot_order_placement,
            RequiredCapability::SpotOrderCancellation => self.capabilities.spot_order_cancellation,
        };
        if !available {
            return Err(AtkError::CapabilityUnavailable(capability));
        }
        Ok(())
    }

    fn ensure_mutation(&mut self, capability: RequiredCapability) -> (r: Result<(), AtkError>)
        ensures
            final(self).spec_config() == old(self).spec_config(),
            final(self).spec_capabilities() == old(self).spec_capabilities(),
            r is Ok ==> has_capability(old(self).spec_capabilities(), capability) && old(self).spec_health().status
                == AtkHealth::Ready,
            r matches Err(e) ==> availability_refusal(old(self).spec_health(), old(self).spec_capabilities(), capability, e),
            !has_capability(old(self).spec_capabilities(), capability) ==> r is Err,
            old(self).spec_health().status == AtkHealth::Ready && has_capability(old(self).spec_capabilities(), capability)
                ==> (r is Ok || (r matches Err(e) && not_alive(e))),
    {
        self.ensure_read(capability)
    }

    /// The ticker of the instrument.
    pub fn market_ticker(&mut self, instrument: &Instrument) -> (r: Result<MarketSnapshot, AtkError>)
        ensures
            final(self).spec_config() == old(self).spec_config(),
            !valid_symbol(instrument@) ==> (r matches Err(AtkError::InvalidOrderRequest(m)) && m@ == domain_error_text(
                DomainError::InvalidInstrument,
            )),
            valid_symbol(instrument@) && !old(self).spec_capabilities().market_data ==> r is Err,
            r matches Ok(s) ==> s.instrument@ == instrument@,
    {
        match instrument.validate() {
            Ok(()) => {},
            Err(error) => {
                return Err(AtkError::InvalidOrderRequest(error.message()));
            },
        }
        match self.ensure_read(RequiredCapability::MarketData) {
            Ok(()) => {},
            Err(e) => {
                return Err(e);
            },
        }
        let mut arguments: Vec<(String, Json)> = Vec::new();
        arguments.push(text_entry("instId", instrument.symbol()));
        let payload = match self.call_tool("market_get_ticker", Json::Object(arguments)) {
            Ok(p) => p,
            Err(e) => {
                return Err(e);
            },
        };
        parse_market_snapshot(&payload, instrument)
    }

    /// The account's balances, of one currency where one is named.
    pub fn account_balance(&mut self, currency: Option<&str>) -> (r: Result<AccountSnapshot, AtkError>)
        ensures
            final(self).spec_config() == old(self).spec_config(),
            !old(self).spec_capabilities().account_balance ==> r is Err,
    {
        match self.ensure_read(RequiredCapability::AccountBalance) {
            Ok(()) => {},
            Err(e) => {
                return Err(e);
            },
        }
        let mut arguments: Vec<(String, Json)> = Vec::new();
        match currency {
            Some(ccy) => {
                arguments.push(text_entry("ccy", ccy));
            },
            None => {},
        }
        let payload = match self.call_tool("account_get_balance", Json::Object(arguments)) {
            Ok(p) => p,
            Err(e) => {
                return Err(e);
            },
        };
        parse_account_snapshot(&payload)
    }

    /// Places a spot order. Once the request has been sent, a failure to
    /// read the answer is reported as an unknown outcome for the request's
    /// client order ID, never as an error.
    pub fn place_spot_order(&mut self, request: &SpotOrderRequest) -> (r: Result<PlacementOutcome, AtkError>)
        ensures
            final(self).spec_config() == old(self).spec_config(),
            !valid_symbol(request.instrument@) ==> (r matches Err(AtkError::InvalidOrderRequest(m)) && m@
                == domain_error_text(DomainError::InvalidInstrument)),
            r matches Err(e) ==> (!valid_symbol(request.instrument@) && e is InvalidOrderRequest) || (valid_symbol(
                request.instrument@,
            ) && availability_refusal(
                old(self).spec_health(),
                old(self).spec_capabilities(),
                RequiredCapability::SpotOrderPlacement,
                e,
            )),
            valid_symbol(request.instrument@) && old(self).spec_health().status == AtkHealth::Ready
                && old(self).spec_capabilities().spot_order_placement ==> (r is Ok || (r matches Err(e) && not_alive(e))),
            !old(self).spec_capabilities().spot_order_placement ==> r is Err,
            old(self).spec_config().read_only ==> r is Err,
            r is Ok ==> old(self).spec_health().status == AtkHealth::Ready,
            r matches Ok(o) ==> exists|reply: Result<Result<Json, (String, String)>, AtkError>|
                exchange_reply(reply) && #[trigger] placement_reply(request.client_order_id@, reply, o),
    {
        proof {
            use_type_invariant(&*self);
        }
        match request.instrument.validate() {
            Ok(()) => {},
            Err(error) => {
                return Err(AtkError::InvalidOrderRequest(error.message()));
            },
        }
        match self.ensure_mutation(RequiredCapability::SpotOrderPlacement) {
            Ok(()) => {},
            Err(e) => {
                return Err(e);
            },
        }
        let client_order_id = request.client_order_id.clone();
        let reply = self.call_tool_result_with_timeout("spot_place_order", request.arguments(), self.config.request_timeout);
        let ghost sent = reply;
        let outcome = placement_from_reply(client_order_id, reply);
        assert(placement_reply(request.client_order_id@, sent, outcome));
        Ok(outcome)
    }

    /// The status of an order named by exactly one identifier.
    pub fn query_order(&mut self, query: &OrderQuery) -> (r: Result<OrderStatus, AtkError>)
        ensures
            final(self).spec_config() == old(self).spec_config(),
            super::orders::lookup_fault(query.instrument, query.order_id, query.client_order_id) matches Some(m) ==> (
            r matches Err(AtkError::InvalidOrderRequest(x)) && x@ == m),
            !old(self).spec_capabilities().spot_order_query ==> r is Err,
    {
        match query.validate() {
            Ok(()) => {},
            Err(e) => {
                return Err(e);
            },
        }
        match self.ensure_read(RequiredCapability::SpotOrderQuery) {
            Ok(()) => {},
            Err(e) => {
                return Err(e);
            },
        }
        let arguments = match query.arguments() {
            Ok(a) => a,
            Err(e) => {
                return Err(e);
            },
        };
        let payload = match self.call_tool("spot_get_order", arguments) {
            Ok(p) => p,
            Err(e) => {
                return Err(e);
            },
        };
        parse_order_status(&payload)
    }

    /// Cancels an order named by exactly one identifier. Once the request
    /// has been sent, a failure to read the answer is reported as an unknown
    /// outcome, never as an error.
    pub fn cancel_order(&mut self, request: &CancelOrderRequest) -> (r: Result<CancellationOutcome, AtkError>)
        ensures
            final(self).spec_config() == old(self).spec_config(),
            super::orders::lookup_fault(request.instrument, request.order_id, request.client_order_id) matches Some(m)
                ==> (r matches Err(AtkError::InvalidOrderRequest(x)) && x@ == m),
            r matches Err(e) ==> (super::orders::lookup_fault(request.instrument, request.order_id, request.client_order_id)
                is Some && e is InvalidOrderRequest) || (super::orders::lookup_fault(
                request.instrument,
                request.order_id,
                request.client_order_id,
            ) is None && availability_refusal(
                old(self).spec_health(),
                old(self).spec_capabilities(),
                RequiredCapability::SpotOrderCancellation,
                e,
            )),
            super::orders::lookup_fault(request.instrument, request.order_id, request.client_order_id) is None
                && old(self).spec_health().status == AtkHealth::Ready
                && old(self).spec_capabilities().spot_order_cancellation ==> (r is Ok || (r matches Err(e) && not_alive(e))),
            !old(self).spec_capabilities().spot_order_cancellation ==> r is Err,
            old(self).spec_config().read_only ==> r is Err,
            r is Ok ==> old(self).spec_health().status == AtkHealth::Ready,
            r matches Ok(o) ==> exists|reply: Result<Result<Json, (String, String)>, AtkError>|
                exchange_reply(reply) && #[trigger] cancellation_reply(cancellation_client(*request), reply, o),
    {
        proof {
            use_type_invariant(&*self);
        }
        match request.validate() {
            Ok(()) => {},
            Err(e) => {
                return Err(e);
            },
        }
        match self.ensure_mutation(RequiredCapability::SpotOrderCancellation) {
            Ok(()) => {},
            Err(e) => {
                return Err(e);
            },
        }
        let client_order_id = match request.client_id() {
            Some(c) => c,
            None => String::from_str("unknown-client-order"),
        };
        let arguments = match request.arguments() {
            Ok(a) => a,
            Err(e) => {
                return Err(e);
            },
        };
        let reply = self.call_tool_result_with_timeout("spot_cancel_order", arguments, self.config.request_timeout);
        let ghost sent = reply;
        let outcome = cancellation_from_reply(client_order_id, reply);
        assert(cancellation_reply(cancellation_client(*request), sent, outcome));
        Ok(outcome)
    }

    /// Stops the kit; the client is then unavailable.
    pub fn shutdown(&mut self) -> (r: Result<(), AtkError>)
        ensures
            final(self).spec_config() == old(self).spec_config(),
            r is Ok ==> final(self).spec_health().status == AtkHealth::Unavailable,
            r is Ok ==> (final(self).spec_health().reason matches Some(m) && m@ == "shutdown requested"@),
            r matches Err(e) ==> e is Transport && final(self).spec_health() == old(self).spec_health(),
    {
        match self.transport.shutdown() {
            Ok(()) => {},
            Err(e) => {
                return Err(AtkError::Transport(e));
            },
        }
        let health = HealthReport { status: AtkHealth::Unavailable, reason: Some(String::from_str("shutdown requested")) };
        proof {
            use_type_invariant(&*self);
        }
        self.set_health(health);
        Ok(())
    }
}

impl<T: McpTransport + SpawnTransport> AtkClient<T> {
    /// Starts the kit with the configured arguments and connects to it.
    pub fn launch(config: AtkConfig, live_armed: bool) -> (r: Result<AtkClient<T>, AtkError>)
        ensures
            config_fault(config, live_armed) matches Some(m) ==> (r matches Err(AtkError::InvalidConfig(x)) && x@ == m),
            r matches Ok(c) ==> c.spec_health().status == AtkHealth::Ready && c.spec_config() == config,
    {
        match config.validate(live_armed) {
            Ok(()) => {},
            Err(e) => {
                return Err(e);
            },
        }
        let arguments = config.command_arguments();
        let transport = match T::spawn(config.executable.as_str(), &arguments) {
            Ok(t) => t,
            Err(error) => {
                return Err(AtkError::LaunchFailed(error.message()));
            },
        };
        Self::connect(transport, config, live_armed)
    }
}

} // verus!
