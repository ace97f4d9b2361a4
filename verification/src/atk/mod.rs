//! The exchange kit (OKX Agent Trade Kit) reached over its MCP protocol:
//! configuration, order requests, outcomes, and a client that checks the
//! kit's reported mode and capabilities before anything is traded.

use vstd::prelude::*;

pub mod client;
pub mod error;
pub mod gateway;
pub mod json;
pub mod orders;
pub mod replies;
pub mod startup;

pub use client::{AtkClient, McpTransport, SpawnTransport};
pub use error::{AtkError, McpError};
pub use orders::{
    AccountSnapshot, AssetBalance, CancelOrderRequest, CancellationOutcome, MarketSnapshot, OrderQuery,
    OrderSide, OrderState, OrderStatus, PlacementOutcome, SizeUnit, SpotOrderRequest,
};

use crate::intelligence::evidence::clone_strings;
use crate::text::{join_strings, joined, texts};

verus! {

pub const OFFICIAL_REPOSITORY: &'static str = "https://github.com/okx/agent-trade-kit";

pub const OFFICIAL_PACKAGE: &'static str = "@okx_ai/okx-trade-mcp";

pub const VERIFIED_VERSION: &'static str = "1.4.6";

pub const OFFICIAL_EXECUTABLE: &'static str = "okx-trade-mcp";

#[derive(Clone, Copy, Debug, PartialEq, Eq, Structural)]
pub enum AtkSite {
    Global,
    Eea,
    Us,
    Tr,
}

pub open spec fn site_text(s: AtkSite) -> Seq<char> {
    match s {
        AtkSite::Global => "global"@,
        AtkSite::Eea => "eea"@,
        AtkSite::Us => "us"@,
        AtkSite::Tr => "tr"@,
    }
}

impl AtkSite {
    pub fn as_str(self) -> (s: &'static str)
        ensures
            s@ == site_text(self),
    {
        match self {
            AtkSite::Global => "global",
            AtkSite::Eea => "eea",
            AtkSite::Us => "us",
            AtkSite::Tr => "tr",
        }
    }
}

#[derive(Clone, Copy, Debug, PartialEq, Eq, Structural)]
pub enum TradingMode {
    Demo,
    Live,
}

impl TradingMode {
    pub fn is_demo(self) -> (b: bool)
        ensures
            b == (self is Demo),
    {
        match self {
            TradingMode::Demo => true,
            TradingMode::Live => false,
        }
    }
}

/// How the kit is launched and what it must report. Timeouts are in
/// milliseconds.
#[derive(Debug)]
pub struct AtkConfig {
    pub executable: String,
    pub profile: Option<String>,
    pub site: AtkSite,
    pub mode: TradingMode,
    pub read_only: bool,
    pub modules: Vec<String>,
    pub expected_protocol_version: Option<String>,
    pub expected_server_version: Option<String>,
    pub startup_timeout: u64,
    pub request_timeout: u64,
    pub shutdown_timeout: u64,
}

/// The first configuration rule that the configuration breaks, by its
/// message; `live_armed` tells whether the operator armed live mutation.
pub open spec fn config_fault(c: AtkConfig, live_armed: bool) -> Option<Seq<char>> {
    if c.executable@.len() == 0 {
        Some("executable cannot be empty"@)
    } else if c.modules@.len() == 0 {
        Some("at least one module is required"@)
    } else if c.startup_timeout == 0 || c.request_timeout == 0 || c.shutdown_timeout == 0 {
        Some("timeouts must be positive"@)
    } else if c.mode is Live && !c.read_only && !live_armed {
        Some("live mutation requires PROOFTRADE_LIVE_ARM=1"@)
    } else {
        None
    }
}

/// The arguments the kit is started with.
pub open spec fn command_args(c: AtkConfig) -> Seq<Seq<char>> {
    let base = seq!["--modules"@, joined(texts(c.modules@), ","@), "--site"@, site_text(c.site)];
    let with_profile = match c.profile {
        Some(p) => base + seq!["--profile"@, p@],
        None => base,
    };
    let with_read_only = if c.read_only {
        with_profile.push("--read-only"@)
    } else {
        with_profile
    };
    if c.mode is Demo {
        with_read_only.push("--demo"@)
    } else {
        with_read_only.push("--live"@)
    }
}

impl Clone for AtkConfig {
    fn clone(&self) -> (r: AtkConfig)
        ensures
            r.executable@ == self.executable@,
            r.profile == self.profile,
            r.site == self.site,
            r.mode == self.mode,
            r.read_only == self.read_only,
            r.modules@ == self.modules@,
            r.expected_protocol_version == self.expected_protocol_version,
            r.expected_server_version == self.expected_server_version,
            r.startup_timeout == self.startup_timeout,
            r.request_timeout == self.request_timeout,
            r.shutdown_timeout == self.shutdown_timeout,
    {
        AtkConfig {
            executable: self.executable.clone(),
            profile: self.profile.clone(),
            site: self.site,
            mode: self.mode,
            read_only: self.read_only,
            modules: clone_strings(&self.modules),
            expected_protocol_version: self.expected_protocol_version.clone(),
            expected_server_version: self.expected_server_version.clone(),
            startup_timeout: self.startup_timeout,
            request_timeout: self.request_timeout,
            shutdown_timeout: self.shutdown_timeout,
        }
    }
}

impl AtkConfig {
    /// Demo, read-only, on the `tr` site, with the market, spot and account
    /// modules, expecting the verified server version; ten, fifteen and five
    /// seconds to start, answer and stop.
    pub fn new(executable: String) -> (c: AtkConfig)
        ensures
            c.executable == executable,
            c.profile is None,
            c.site == AtkSite::Tr,
            c.mode == TradingMode::Demo,
            c.read_only,
            texts(c.modules@) == seq!["market"@, "spot"@, "account"@],
            c.expected_protocol_version is None,
            c.expected_server_version matches Some(v) && v@ == VERIFIED_VERSION@,
            c.startup_timeout == 10_000,
            c.request_timeout == 15_000,
            c.shutdown_timeout == 5_000,
    {
        let mut modules: Vec<String> = Vec::new();
        modules.push(String::from_str("market"));
        modules.push(String::from_str("spot"));
        modules.push(String::from_str("account"));
        proof {
            assert(texts(modules@) =~= seq!["market"@, "spot"@, "account"@]);
        }
        AtkConfig {
            executable,
            profile: None,
            site: AtkSite::Tr,
            mode: TradingMode::Demo,
            read_only: true,
            modules,
            expected_protocol_version: None,
            expected_server_version: Some(String::from_str(VERIFIED_VERSION)),
            startup_timeout: 10_000,
            request_timeout: 15_000,
            shutdown_timeout: 5_000,
        }
    }

    pub fn with_site(self, site: AtkSite) -> (c: AtkConfig)
        ensures
            c == (AtkConfig { site, ..self }),
    {
        AtkConfig { site, ..self }
    }

    pub fn with_mode(self, mode: TradingMode) -> (c: AtkConfig)
        ensures
            c == (AtkConfig { mode, ..self }),
    {
        AtkConfig { mode, ..self }
    }

    pub fn with_read_only(self, read_only: bool) -> (c: AtkConfig)
        ensures
            c == (AtkConfig { read_only, ..self }),
    {
        AtkConfig { read_only, ..self }
    }

    pub fn with_profile(self, profile: String) -> (c: AtkConfig)
        ensures
            c == (AtkConfig { profile: Some(profile), ..self }),
    {
        AtkConfig { profile: Some(profile), ..self }
    }

    pub fn with_modules(self, modules: Vec<String>) -> (c: AtkConfig)
        ensures
            c == (AtkConfig { modules, ..self }),
    {
        AtkConfig { modules, ..self }
    }

    pub fn with_startup_timeout(self, timeout: u64) -> (c: AtkConfig)
        ensures
            c == (AtkConfig { startup_timeout: timeout, ..self }),
    {
        AtkConfig { startup_timeout: timeout, ..self }
    }

    pub fn with_request_timeout(self, timeout: u64) -> (c: AtkConfig)
        ensures
            c == (AtkConfig { request_timeout: timeout, ..self }),
    {
        AtkConfig { request_timeout: timeout, ..self }
    }

    pub fn with_shutdown_timeout(self, timeout: u64) -> (c: AtkConfig)
        ensures
            c == (AtkConfig { shutdown_timeout: timeout, ..self }),
    {
        AtkConfig { shutdown_timeout: timeout, ..self }
    }

    pub fn with_expected_protocol_version(self, version: String) -> (c: AtkConfig)
        ensures
            c == (AtkConfig { expected_protocol_version: Some(version), ..self }),
    {
        AtkConfig { expected_protocol_version: Some(version), ..self }
    }

    pub fn with_expected_server_version(self, version: String) -> (c: AtkConfig)
        ensures
            c == (AtkConfig { expected_server_version: Some(version), ..self }),
    {
        AtkConfig { expected_server_version: Some(version), ..self }
    }

    /// Checks the configuration; `live_armed` says whether the operator has
    /// armed live mutation (`PROOFTRADE_LIVE_ARM=1`).
    pub fn validate(&self, live_armed: bool) -> (r: Result<(), AtkError>)
        ensures
            r is Ok <==> config_fault(*self, live_armed) is None,
            r matches Err(e) ==> e matches AtkError::InvalidConfig(m) && Some(m@) == config_fault(*self, live_armed),
    {
        if self.executable.as_str().unicode_len() == 0 {
            return Err(AtkError::InvalidConfig(String::from_str("executable cannot be empty")));
        }
        if self.modules.len() == 0 {
            return Err(AtkError::InvalidConfig(String::from_str("at least one module is required")));
        }
        if self.startup_timeout == 0 || self.request_timeout == 0 || self.shutdown_timeout == 0 {
            return Err(AtkError::InvalidConfig(String::from_str("timeouts must be positive")));
        }
        if !self.mode.is_demo() && !self.read_only && !live_armed {
            return Err(AtkError::InvalidConfig(String::from_str("live mutation requires PROOFTRADE_LIVE_ARM=1")));
        }
        Ok(())
    }

    /// The arguments the kit is started with: its modules, its site, the
    /// profile where there is one, the read-only switch, and demo or live.
    pub fn command_arguments(&self) -> (args: Vec<String>)
        ensures
            texts(args@) == command_args(*self),
    {
        let mut args: Vec<String> = Vec::new();
        args.push(String::from_str("--modules"));
        args.push(join_strings(&self.modules, ","));
        args.push(String::from_str("--site"));
        args.push(String::from_str(self.site.as_str()));
        proof {
            assert(texts(args@) =~= seq!["--modules"@, joined(texts(self.modules@), ","@), "--site"@, site_text(self.site)]);
        }
        let ghost base = texts(args@);
        match &self.profile {
            Some(p) => {
                args.push(String::from_str("--profile"));
                args.push(p.clone());
                proof {
                    assert(texts(args@) =~= base + seq!["--profile"@, p@]);
                }
            },
            None => {},
        }
        let ghost mid = texts(args@);
        if self.read_only {
            args.push(String::from_str("--read-only"));
            proof {
                assert(texts(args@) =~= mid.push("--read-only"@));
            }
        }
        let ghost last = texts(args@);
        if self.mode.is_demo() {
            args.push(String::from_str("--demo"));
            proof {
                assert(texts(args@) =~= last.push("--demo"@));
            }
        } else {
            args.push(String::from_str("--live"));
            proof {
                assert(texts(args@) =~= last.push("--live"@));
            }
        }
        args
    }
}

#[derive(Clone, Copy, Debug, PartialEq, Eq, Structural, Hash)]
pub enum RequiredCapability {
    MarketData,
    AccountBalance,
    SpotOrderPlacement,
    SpotOrderQuery,
    SpotOrderCancellation,
}

#[derive(Clone, Copy, Debug, PartialEq, Eq, Structural)]
pub enum AtkHealth {
    Starting,
    Ready,
    Degraded,
    Unavailable,
}

#[derive(Clone, Copy, Debug, PartialEq, Eq, Structural)]
pub enum SiteVerification {
    Verified,
    Unreported,
}

#[derive(Debug, PartialEq, Eq)]
pub struct HealthReport {
    pub status: AtkHealth,
    pub reason: Option<String>,
}

impl Clone for HealthReport {
    fn clone(&self) -> (r: HealthReport)
        ensures
            r == *self,
    {
        HealthReport { status: self.status, reason: self.reason.clone() }
    }
}

/// What the kit reported at startup; `tools` is ascending and holds each
/// name once.
#[derive(Debug, PartialEq, Eq)]
pub struct CapabilityReport {
    pub server_version: String,
    pub tools: Vec<String>,
    pub market_data: bool,
    pub account_balance: bool,
    pub spot_order_placement: bool,
    pub spot_order_query: bool,
    pub spot_order_cancellation: bool,
    pub news: bool,
    pub read_only: bool,
    pub demo: bool,
    pub has_auth: bool,
    pub site_verification: SiteVerification,
    pub execution_ready: bool,
}

impl Clone for CapabilityReport {
    fn clone(&self) -> (r: CapabilityReport)
        ensures
            r.server_version@ == self.server_version@,
            r.tools@ == self.tools@,
            r.market_data == self.market_data,
            r.account_balance == self.account_balance,
            r.spot_order_placement == self.spot_order_placement,
            r.spot_order_query == self.spot_order_query,
            r.spot_order_cancellation == self.spot_order_cancellation,
            r.news == self.news,
            r.read_only == self.read_only,
            r.demo == self.demo,
            r.has_auth == self.has_auth,
            r.site_verification == self.site_verification,
            r.execution_ready == self.execution_ready,
    {
        CapabilityReport {
            server_version: self.server_version.clone(),
            tools: clone_strings(&self.tools),
            market_data: self.market_data,
            account_balance: self.account_balance,
            spot_order_placement: self.spot_order_placement,
            spot_order_query: self.spot_order_query,
            spot_order_cancellation: self.spot_order_cancellation,
            news: self.news,
            read_only: self.read_only,
            demo: self.demo,
            has_auth: self.has_auth,
            site_verification: self.site_verification,
            execution_ready: self.execution_ready,
        }
    }
}

} // verus!
