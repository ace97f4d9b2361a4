//! Failures of the kit's transport and of the client built on it.

use vstd::prelude::*;

use super::RequiredCapability;
use crate::text::{concat, i64_text, int_text};

verus! {

#[derive(Debug, PartialEq, Eq)]
pub enum McpError {
    Io(String),
    ProcessExited,
    RequestTimeout { method: String },
    MalformedJson(String),
    InvalidEnvelope(String),
    JsonRpc { code: i64, message: String },
}

#[derive(Debug, PartialEq, Eq)]
pub enum AtkError {
    InvalidConfig(String),
    LaunchFailed(String),
    Unavailable(String),
    NotReady,
    Transport(McpError),
    ProtocolResponseInvalid(String),
    ProtocolError { code: i64, message: String },
    ResponseInvalid(String),
    ToolRejected { tool: String, code: String, message: String },
    CapabilityUnavailable(RequiredCapability),
    ToolSchemaInvalid { tool: String, reason: String },
    ModeMismatch { expected_demo: bool, actual_demo: bool },
    VersionMismatch { expected: String, actual: String },
    ReadOnlyMismatch { expected: bool, actual: bool },
    SiteMismatch { expected: String, actual: String },
    InvalidOrderRequest(String),
    InvalidNumber { field: String, value: String },
}

pub open spec fn mcp_error_text(e: McpError) -> Seq<char> {
    match e {
        McpError::Io(s) => "MCP transport I/O failed: "@ + s@,
        McpError::ProcessExited => "MCP child process exited"@,
        McpError::RequestTimeout { method } => "MCP response timed out for "@ + method@,
        McpError::MalformedJson(s) => "MCP returned malformed JSON: "@ + s@,
        McpError::InvalidEnvelope(s) => "MCP response has an invalid envelope: "@ + s@,
        McpError::JsonRpc { code, message } => "MCP JSON-RPC error "@ + int_text(code as int) + ": "@ + message@,
    }
}

pub open spec fn bool_text(b: bool) -> Seq<char> {
    if b {
        "true"@
    } else {
        "false"@
    }
}

pub open spec fn capability_name(c: RequiredCapability) -> Seq<char> {
    match c {
        RequiredCapability::MarketData => "MarketData"@,
        RequiredCapability::AccountBalance => "AccountBalance"@,
        RequiredCapability::SpotOrderPlacement => "SpotOrderPlacement"@,
        RequiredCapability::SpotOrderQuery => "SpotOrderQuery"@,
        RequiredCapability::SpotOrderCancellation => "SpotOrderCancellation"@,
    }
}

pub open spec fn atk_error_text(e: AtkError) -> Seq<char> {
    match e {
        AtkError::InvalidConfig(s) => "invalid ATK configuration: "@ + s@,
        AtkError::LaunchFailed(s) => "ATK process could not be launched: "@ + s@,
        AtkError::Unavailable(s) => "ATK integration is unavailable: "@ + s@,
        AtkError::NotReady => "ATK integration is not ready"@,
        AtkError::Transport(m) => "MCP transport error: "@ + mcp_error_text(m),
        AtkError::ProtocolResponseInvalid(s) => "MCP protocol response is invalid: "@ + s@,
        AtkError::ProtocolError { code, message } => "MCP JSON-RPC error "@ + int_text(code as int) + ": "@ + message@,
        AtkError::ResponseInvalid(s) => "ATK tool response is invalid: "@ + s@,
        AtkError::ToolRejected { tool, code, message } => "ATK tool "@ + tool@ + " rejected the request ("@ + code@
            + "): "@ + message@,
        AtkError::CapabilityUnavailable(c) => "required ATK capability is unavailable: "@ + capability_name(c),
        AtkError::ToolSchemaInvalid { tool, reason } => "ATK tool schema is invalid for "@ + tool@ + ": "@ + reason@,
        AtkError::ModeMismatch { expected_demo, actual_demo } => "ATK demo/live mode mismatch: expected demo="@
            + bool_text(expected_demo) + ", actual demo="@ + bool_text(actual_demo),
        AtkError::VersionMismatch { expected, actual } => "ATK server version mismatch: expected "@ + expected@
            + ", actual "@ + actual@,
        AtkError::ReadOnlyMismatch { expected, actual } => "ATK read-only mode mismatch: expected read_only="@
            + bool_text(expected) + ", actual read_only="@ + bool_text(actual),
        AtkError::SiteMismatch { expected, actual } => "ATK site mismatch: expected "@ + expected@ + ", actual "@
            + actual@,
        AtkError::InvalidOrderRequest(s) => "invalid spot order request: "@ + s@,
        AtkError::InvalidNumber { field, value } => "numeric field "@ + field@ + " is invalid: "@ + value@,
    }
}

/// Texts joined in order.
fn join3(a: &str, b: &str, c: &str) -> (s: String)
    ensures
        s@ == a@ + b@ + c@,
{
    let mut s = String::from_str(a);
    s.append(b);
    s.append(c);
    s
}

fn bool_string(b: bool) -> (s: String)
    ensures
        s@ == bool_text(b),
{
    if b {
        String::from_str("true")
    } else {
        String::from_str("false")
    }
}

fn capability_string(c: RequiredCapability) -> (s: String)
    ensures
        s@ == capability_name(c),
{
    match c {
        RequiredCapability::MarketData => String::from_str("MarketData"),
        RequiredCapability::AccountBalance => String::from_str("AccountBalance"),
        RequiredCapability::SpotOrderPlacement => String::from_str("SpotOrderPlacement"),
        RequiredCapability::SpotOrderQuery => String::from_str("SpotOrderQuery"),
        RequiredCapability::SpotOrderCancellation => String::from_str("SpotOrderCancellation"),
    }
}

impl McpError {
    /// The error's message.
    pub fn message(&self) -> (s: String)
        ensures
            s@ == mcp_error_text(*self),
    {
        match self {
            McpError::Io(s) => concat("MCP transport I/O failed: ", s.as_str()),
            McpError::ProcessExited => String::from_str("MCP child process exited"),
            McpError::RequestTimeout { method } => concat("MCP response timed out for ", method.as_str()),
            McpError::MalformedJson(s) => concat("MCP returned malformed JSON: ", s.as_str()),
            McpError::InvalidEnvelope(s) => concat("MCP response has an invalid envelope: ", s.as_str()),
            McpError::JsonRpc { code, message } => {
                let n = i64_text(*code);
                let head = join3("MCP JSON-RPC error ", n.as_str(), ": ");
                concat(head.as_str(), message.as_str())
            },
        }
    }

    pub fn copy(&self) -> (r: McpError)
        ensures
            r == *self,
    {
        match self {
            McpError::Io(s) => McpError::Io(s.clone()),
            McpError::ProcessExited => McpError::ProcessExited,
            McpError::RequestTimeout { method } => McpError::RequestTimeout { method: method.clone() },
            McpError::MalformedJson(s) => McpError::MalformedJson(s.clone()),
            McpError::InvalidEnvelope(s) => McpError::InvalidEnvelope(s.clone()),
            McpError::JsonRpc { code, message } => McpError::JsonRpc { code: *code, message: message.clone() },
        }
    }
}

impl AtkError {
    /// The error's message.
    pub fn message(&self) -> (s: String)
        ensures
            s@ == atk_error_text(*self),
    {
        match self {
            AtkError::InvalidConfig(s) => concat("invalid ATK configuration: ", s.as_str()),
            AtkError::LaunchFailed(s) => concat("ATK process could not be launched: ", s.as_str()),
            AtkError::Unavailable(s) => concat("ATK integration is unavailable: ", s.as_str()),
            AtkError::NotReady => String::from_str("ATK integration is not ready"),
            AtkError::Transport(m) => {
                let t = m.message();
                concat("MCP transport error: ", t.as_str())
            },
            AtkError::ProtocolResponseInvalid(s) => concat("MCP protocol response is invalid: ", s.as_str()),
            AtkError::ProtocolError { code, message } => {
                let n = i64_text(*code);
                let head = join3("MCP JSON-RPC error ", n.as_str(), ": ");
                concat(head.as_str(), message.as_str())
            },
            AtkError::ResponseInvalid(s) => concat("ATK tool response is invalid: ", s.as_str()),
            AtkError::ToolRejected { tool, code, message } => {
                let a = join3("ATK tool ", tool.as_str(), " rejected the request (");
                let b = join3(a.as_str(), code.as_str(), "): ");
                concat(b.as_str(), message.as_str())
            },
            AtkError::CapabilityUnavailable(c) => {
                let name = capability_string(*c);
                concat("required ATK capability is unavailable: ", name.as_str())
            },
            AtkError::ToolSchemaInvalid { tool, reason } => {
                let a = join3("ATK tool schema is invalid for ", tool.as_str(), ": ");
                concat(a.as_str(), reason.as_str())
            },
            AtkError::ModeMismatch { expected_demo, actual_demo } => {
                let e = bool_string(*expected_demo);
                let a = bool_string(*actual_demo);
                let head = join3("ATK demo/live mode mismatch: expected demo=", e.as_str(), ", actual demo=");
                concat(head.as_str(), a.as_str())
            },
            AtkError::VersionMismatch { expected, actual } => {
                let head = join3("ATK server version mismatch: expected ", expected.as_str(), ", actual ");
                concat(head.as_str(), actual.as_str())
            },
            AtkError::ReadOnlyMismatch { expected, actual } => {
                let e = bool_string(*expected);
                let a = bool_string(*actual);
                let head = join3("ATK read-only mode mismatch: expected read_only=", e.as_str(), ", actual read_only=");
                concat(head.as_str(), a.as_str())
            },
            AtkError::SiteMismatch { expected, actual } => {
                let head = join3("ATK site mismatch: expected ", expected.as_str(), ", actual ");
                concat(head.as_str(), actual.as_str())
            },
            AtkError::InvalidOrderRequest(s) => concat("invalid spot order request: ", s.as_str()),
            AtkError::InvalidNumber { field, value } => {
                let head = join3("numeric field ", field.as_str(), " is invalid: ");
                concat(head.as_str(), value.as_str())
            },
        }
    }
}

impl From<McpError> for AtkError {
    fn from(error: McpError) -> (r: AtkError) {
        AtkError::Transport(error)
    }
}

impl vstd::std_specs::convert::FromSpecImpl<McpError> for AtkError {
    open spec fn obeys_from_spec() -> bool {
        true
    }

    open spec fn from_spec(v: McpError) -> AtkError {
        AtkError::Transport(v)
    }
}

} // verus!
