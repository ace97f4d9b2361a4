//! Reading the kit's replies: the JSON-RPC envelope, tool rejections, and
//! the records of tickers, balances, placements, orders and cancellations.

use vstd::prelude::*;

use super::error::{atk_error_text, AtkError, McpError};
use super::json::{field_text, int_of, json_get, lookup_from, scalar_text, text_of, Json};
use super::orders::{
    known_state, AccountSnapshot, AssetBalance, CancellationOutcome, MarketSnapshot, OrderState, OrderStatus,
    PlacementOutcome,
};
use super::startup::{member, nonblank_text};
use crate::dec::{decimal_parse, parse_decimal, Dec, DecView};
use crate::domain::error::domain_error_text;
use crate::domain::instrument::{valid_symbol, Instrument};
use crate::text::{concat, integer_value, is_blank, parse_i128, str_eq, str_is_blank};
use crate::timestamp::{from_unix_timestamp_nanos, parse_rfc3339, rfc3339_instant, Timestamp, MAX_UNIX_SECONDS, MIN_UNIX_SECONDS};

verus! {

/// Takes member `key` out of an object.
pub fn take_member(v: Json, key: &str) -> (r: Option<Json>)
    ensures
        r == json_get(v, key@),
{
    let ghost found = json_get(v, key@);
    match v {
        Json::Object(mut entries) => {
            let ghost all = entries@;
            assert(found == lookup_from(all, key@, 0));
            let mut i: usize = 0;
            while i < entries.len()
                invariant
                    entries@ == all,
                    found == lookup_from(all, key@, 0),
                    found == json_get(v, key@),
                    i <= all.len(),
                    lookup_from(all, key@, 0) == lookup_from(all, key@, i as int),
                decreases entries.len() - i,
            {
                if str_eq(entries[i].0.as_str(), key) {
                    proof {
                        assert(lookup_from(all, key@, i as int) == Some(all[i as int].1));
                    }
                    let entry = entries.remove(i);
                    assert(entry == all[i as int]);
                    return Some(entry.1);
                }
                i = i + 1;
            }
            None
        },
        _ => None,
    }
}

/// How a JSON-RPC response is read: a `2.0` envelope whose error is
/// reported, or whose result is given.
pub open spec fn rpc_outcome(resp: Json, r: Result<Json, AtkError>) -> bool {
    if field_text(resp, "jsonrpc"@) != Some("2.0"@) {
        r matches Err(AtkError::ProtocolResponseInvalid(m)) && m@ == "MCP response.jsonrpc must be 2.0"@
    } else if json_get(resp, "error"@) is Some {
        let e = json_get(resp, "error"@)->0;
        r matches Err(AtkError::ProtocolError { code, message }) && code == (match int_of(json_get(e, "code"@)) {
            Some(c) => c,
            None => -1i64,
        }) && message@ == (match field_text(e, "message"@) {
            Some(t) => t,
            None => "unknown JSON-RPC error"@,
        })
    } else if json_get(resp, "result"@) is Some {
        r == Ok::<Json, AtkError>(json_get(resp, "result"@)->0)
    } else {
        r matches Err(AtkError::ProtocolResponseInvalid(m)) && m@ == "MCP response.result is missing"@
    }
}

/// Reads a JSON-RPC response envelope.
pub fn rpc_result(response: Json) -> (r: Result<Json, AtkError>)
    ensures
        rpc_outcome(response, r),
{
    let is_v2 = match response.text_field("jsonrpc") {
        Some(v) => str_eq(v, "2.0"),
        None => false,
    };
    if !is_v2 {
        return Err(AtkError::ProtocolResponseInvalid(String::from_str("MCP response.jsonrpc must be 2.0")));
    }
    match response.get("error") {
        Some(error) => {
            let code = match error.get("code") {
                Some(c) => match c.as_i64() {
                    Some(n) => n,
                    None => -1,
                },
                None => -1,
            };
            let message = match error.text_field("message") {
                Some(t) => String::from_str(t),
                None => String::from_str("unknown JSON-RPC error"),
            };
            return Err(AtkError::ProtocolError { code, message });
        },
        None => {},
    }
    match take_member(response, "result") {
        Some(result) => Ok(result),
        None => Err(AtkError::ProtocolResponseInvalid(String::from_str("MCP response.result is missing"))),
    }
}

pub open spec fn text_or(t: Option<Seq<char>>, d: Seq<char>) -> Seq<char> {
    match t {
        Some(x) => x,
        None => d,
    }
}

/// A text member of the payload, or of its `error` object where the payload
/// has no such member.
pub open spec fn rejection_text(p: Json, key: Seq<char>) -> Option<Seq<char>> {
    match json_get(p, key) {
        Some(v) => text_of(Some(v)),
        None => text_of(member(json_get(p, "error"@), key)),
    }
}

fn rejection_member(payload: &Json, key: &str) -> (r: Option<String>)
    ensures
        r matches Some(s) ==> rejection_text(*payload, key@) == Some(s@),
        r is None ==> rejection_text(*payload, key@) is None,
{
    let found = match payload.get(key) {
        Some(v) => v.as_str(),
        None => match payload.get("error") {
            Some(e) => e.text_field(key),
            None => None,
        },
    };
    match found {
        Some(s) => Some(String::from_str(s)),
        None => None,
    }
}

/// The code and message of a rejected tool call.
pub fn tool_rejection(payload: &Json) -> (r: (String, String))
    ensures
        r.0@ == text_or(rejection_text(*payload, "code"@), "ATK_TOOL_ERROR"@),
        r.1@ == text_or(rejection_text(*payload, "message"@), "ATK tool rejected the request"@),
{
    let code = match rejection_member(payload, "code") {
        Some(c) => c,
        None => String::from_str("ATK_TOOL_ERROR"),
    };
    let message = match rejection_member(payload, "message") {
        Some(m) => m,
        None => String::from_str("ATK tool rejected the request"),
    };
    (code, message)
}

/// `data.data`, or `data` where it has no inner `data`.
pub open spec fn nested_data_of(p: Json) -> Option<Json> {
    match json_get(p, "data"@) {
        Some(d) => match json_get(d, "data"@) {
            Some(x) => Some(x),
            None => Some(d),
        },
        None => None,
    }
}

/// The first record of a tool's data: the data itself where it is an
/// object, or the first item of a data list where that is an object.
pub open spec fn first_record_of(p: Json) -> Option<Json> {
    match nested_data_of(p) {
        Some(Json::Object(e)) => Some(Json::Object(e)),
        Some(Json::Array(items)) => if items@.len() > 0 && items@[0] is Object {
            Some(items@[0])
        } else {
            None
        },
        _ => None,
    }
}

/// The error given when a payload has no first record.
pub open spec fn record_error(p: Json, e: AtkError) -> bool {
    if nested_data_of(p) is None {
        e matches AtkError::ResponseInvalid(m) && m@ == "tool data is missing"@
    } else {
        e matches AtkError::ResponseInvalid(m) && m@ == "tool data must contain an object"@
    }
}

pub fn first_record(payload: &Json) -> (r: Result<&Json, AtkError>)
    ensures
        r matches Ok(x) ==> first_record_of(*payload) == Some(*x),
        r matches Err(e) ==> first_record_of(*payload) is None && record_error(*payload, e),
        first_record_of(*payload) is None ==> r is Err,
{
    let data = match payload.get("data") {
        Some(d) => match d.get("data") {
            Some(x) => x,
            None => d,
        },
        None => {
            return Err(AtkError::ResponseInvalid(String::from_str("tool data is missing")));
        },
    };
    if data.is_object() {
        return Ok(data);
    }
    match data.as_array() {
        Some(items) => {
            if items.len() > 0 && items[0].is_object() {
                return Ok(&items[0]);
            }
        },
        None => {},
    }
    Err(AtkError::ResponseInvalid(String::from_str("tool data must contain an object")))
}

/// A record's non-blank text member, or the error naming it as missing.
pub fn string_field(record: &Json, field: &str) -> (r: Result<String, AtkError>)
    ensures
        r matches Ok(s) ==> nonblank_text(json_get(*record, field@)) == Some(s@),
        r matches Err(e) ==> nonblank_text(json_get(*record, field@)) is None && (e matches AtkError::ResponseInvalid(m)
            && m@ == field@ + " is missing"@),
        nonblank_text(json_get(*record, field@)) is None ==> r is Err,
{
    match record.text_field(field) {
        Some(t) => {
            if !str_is_blank(t) {
                return Ok(String::from_str(t));
            }
        },
        None => {},
    }
    Err(AtkError::ResponseInvalid(concat(field, " is missing")))
}

/// A record's text member, or the empty text.
pub fn optional_string_field(record: &Json, field: &str) -> (s: String)
    ensures
        s@ == text_or(field_text(*record, field@), ""@),
{
    match record.text_field(field) {
        Some(t) => String::from_str(t),
        None => String::from_str(""),
    }
}

/// The text a decimal is read from: a string, or a number as written.
pub open spec fn number_text(v: Json) -> Option<Seq<char>> {
    match v {
        Json::Text(s) => Some(s@),
        Json::Number(n) => Some(n.text@),
        _ => None,
    }
}

/// The decimal a value holds, where it holds one.
pub open spec fn decimal_of(v: Json) -> Option<DecView> {
    match number_text(v) {
        Some(t) => decimal_parse(t),
        None => None,
    }
}

/// How a value is read as the decimal of `field`.
pub open spec fn decimal_outcome(v: Json, field: Seq<char>, r: Result<Dec, AtkError>) -> bool {
    match number_text(v) {
        Some(t) => match decimal_parse(t) {
            Some(d) => r matches Ok(x) && x@ == d,
            None => r matches Err(AtkError::InvalidNumber { field: f, value }) && f@ == field && value@ == t,
        },
        None => r matches Err(AtkError::InvalidNumber { field: f, value }) && f@ == field && (scalar_text(v) matches Some(
            s,
        ) ==> value@ == s),
    }
}

pub fn decimal_value(value: &Json, field: &str) -> (r: Result<Dec, AtkError>)
    ensures
        decimal_outcome(*value, field@, r),
{
    let text = match value {
        Json::Text(s) => s.clone(),
        Json::Number(n) => n.text.clone(),
        _ => {
            return Err(AtkError::InvalidNumber { field: String::from_str(field), value: value.render() });
        },
    };
    match parse_decimal(text.as_str()) {
        Some(d) => Ok(d),
        None => Err(AtkError::InvalidNumber { field: String::from_str(field), value: text }),
    }
}

/// How a record's member is read as a decimal.
pub open spec fn decimal_field_outcome(record: Json, field: Seq<char>, r: Result<Dec, AtkError>) -> bool {
    match json_get(record, field) {
        Some(v) => decimal_outcome(v, field, r),
        None => r matches Err(AtkError::ResponseInvalid(m)) && m@ == field + " is missing"@,
    }
}

/// The decimal of a record's member, where it holds one.
pub open spec fn field_decimal(record: Json, field: Seq<char>) -> Option<DecView> {
    match json_get(record, field) {
        Some(v) => decimal_of(v),
        None => None,
    }
}

pub fn decimal_field(record: &Json, field: &str) -> (r: Result<Dec, AtkError>)
    ensures
        decimal_field_outcome(*record, field@, r),
        r matches Ok(d) ==> field_decimal(*record, field@) == Some(d@),
        r is Err ==> field_decimal(*record, field@) is None,
{
    match record.get(field) {
        Some(v) => decimal_value(v, field),
        None => Err(AtkError::ResponseInvalid(concat(field, " is missing"))),
    }
}

/// The instant `ms` milliseconds after the epoch, where the `time` crate
/// represents it.
pub open spec fn millis_instant(ms: int) -> Option<Timestamp> {
    let nanos = ms * 1_000_000;
    if i128::MIN <= nanos <= i128::MAX && MIN_UNIX_SECONDS <= nanos / 1_000_000_000 <= MAX_UNIX_SECONDS {
        Some(Timestamp { unix_seconds: (nanos / 1_000_000_000) as i64, nanosecond: (nanos % 1_000_000_000) as u32 })
    } else {
        None
    }
}

/// The instant a timestamp value holds: milliseconds as an integer string
/// or number, or RFC 3339 text.
pub open spec fn instant_of(v: Json) -> Option<Timestamp> {
    match v {
        Json::Text(t) => match integer_value(t@) {
            Some(ms) => if i128::MIN <= ms <= i128::MAX {
                millis_instant(ms)
            } else {
                rfc3339_instant(t@)
            },
            None => rfc3339_instant(t@),
        },
        Json::Number(n) => match n.int {
            Some(ms) => millis_instant(ms as int),
            None => None,
        },
        _ => None,
    }
}

/// How a timestamp is read from a value or, where it is absent, a fallback.
pub open spec fn timestamp_outcome(value: Option<Json>, fallback: Option<Json>, r: Result<Timestamp, AtkError>) -> bool {
    let chosen = if value is Some {
        value
    } else {
        fallback
    };
    match chosen {
        None => r matches Err(AtkError::ResponseInvalid(m)) && m@ == "timestamp is missing"@,
        Some(v) => match instant_of(v) {
            Some(t) => r == Ok::<Timestamp, AtkError>(t),
            None => match v {
                Json::Text(_) => r matches Err(AtkError::ResponseInvalid(_)),
                Json::Number(n) => if n.int is Some {
                    r matches Err(AtkError::ResponseInvalid(m)) && m@ == "timestamp was not in range"@
                } else {
                    r matches Err(AtkError::ResponseInvalid(m)) && m@ == "timestamp has an unsupported type"@
                },
                _ => r matches Err(AtkError::ResponseInvalid(m)) && m@ == "timestamp has an unsupported type"@,
            },
        },
    }
}

fn millis_timestamp(ms: i128) -> (r: Result<Timestamp, AtkError>)
    ensures
        millis_instant(ms as int) matches Some(t) ==> r == Ok::<Timestamp, AtkError>(t),
        millis_instant(ms as int) is None ==> (r matches Err(AtkError::ResponseInvalid(m)) && m@
            == "timestamp was not in range"@),
{
    match ms.checked_mul(1_000_000) {
        Some(nanos) => match from_unix_timestamp_nanos(nanos) {
            Some(t) => Ok(t),
            None => Err(AtkError::ResponseInvalid(String::from_str("timestamp was not in range"))),
        },
        None => Err(AtkError::ResponseInvalid(String::from_str("timestamp was not in range"))),
    }
}

pub open spec fn deref_opt(v: Option<&Json>) -> Option<Json> {
    match v {
        Some(x) => Some(*x),
        None => None,
    }
}

pub fn timestamp_field(value: Option<&Json>, fallback: Option<&Json>) -> (r: Result<Timestamp, AtkError>)
    ensures
        timestamp_outcome(deref_opt(value), deref_opt(fallback), r),
{
    let chosen = match value {
        Some(v) => v,
        None => match fallback {
            Some(f) => f,
            None => {
                return Err(AtkError::ResponseInvalid(String::from_str("timestamp is missing")));
            },
        },
    };
    match chosen {
        Json::Text(t) => {
            match parse_i128(t.as_str()) {
                Some(ms) => {
                    return millis_timestamp(ms);
                },
                None => {},
            }
            match parse_rfc3339(t.as_str()) {
                Ok(ts) => Ok(ts),
                Err(message) => Err(AtkError::ResponseInvalid(message)),
            }
        },
        Json::Number(n) => match n.int {
            Some(ms) => millis_timestamp(ms as i128),
            None => Err(AtkError::ResponseInvalid(String::from_str("timestamp has an unsupported type"))),
        },
        _ => Err(AtkError::ResponseInvalid(String::from_str("timestamp has an unsupported type"))),
    }
}

/// The member's text where it is a non-empty string.
pub open spec fn nonempty_text(v: Option<Json>) -> Option<Seq<char>> {
    match text_of(v) {
        Some(t) => if t.len() > 0 {
            Some(t)
        } else {
            None
        },
        None => None,
    }
}

fn nonempty_member(record: &Json, field: &str) -> (r: Option<String>)
    ensures
        r matches Some(s) ==> nonempty_text(json_get(*record, field@)) == Some(s@),
        r is None ==> nonempty_text(json_get(*record, field@)) is None,
{
    match record.text_field(field) {
        Some(t) => if t.unicode_len() > 0 {
            Some(String::from_str(t))
        } else {
            None
        },
        None => None,
    }
}

/// How a placement answer is read.
pub open spec fn placement_outcome(p: Json, r: Result<PlacementOutcome, AtkError>) -> bool {
    match first_record_of(p) {
        None => r matches Err(e) && record_error(p, e),
        Some(rec) => {
            let code = text_or(field_text(rec, "sCode"@), "0"@);
            let message = text_or(field_text(rec, "sMsg"@), ""@);
            let client = nonempty_text(json_get(rec, "clOrdId"@));
            let order = nonempty_text(json_get(rec, "ordId"@));
            if client is None {
                r matches Err(AtkError::ResponseInvalid(m)) && m@ == "placement clOrdId is missing"@
            } else if code != "0"@ {
                r matches Ok(PlacementOutcome::Rejected { code: c, message: m }) && c@ == code && m@ == message
            } else if order is None {
                r matches Err(AtkError::ResponseInvalid(m)) && m@ == "placement ordId is missing"@
            } else {
                r matches Ok(PlacementOutcome::Confirmed { order_id, client_order_id }) && order_id@ == order->0
                    && client_order_id@ == client->0
            }
        },
    }
}

fn code_and_message(record: &Json) -> (r: (String, String))
    ensures
        r.0@ == text_or(field_text(*record, "sCode"@), "0"@),
        r.1@ == text_or(field_text(*record, "sMsg"@), ""@),
{
    let code = match record.text_field("sCode") {
        Some(c) => String::from_str(c),
        None => String::from_str("0"),
    };
    let message = match record.text_field("sMsg") {
        Some(m) => String::from_str(m),
        None => String::from_str(""),
    };
    (code, message)
}

pub fn parse_placement(payload: &Json) -> (r: Result<PlacementOutcome, AtkError>)
    ensures
        placement_outcome(*payload, r),
{
    let record = match first_record(payload) {
        Ok(x) => x,
        Err(e) => {
            return Err(e);
        },
    };
    let (code, message) = code_and_message(record);
    let client_order_id = match nonempty_member(record, "clOrdId") {
        Some(c) => c,
        None => {
            return Err(AtkError::ResponseInvalid(String::from_str("placement clOrdId is missing")));
        },
    };
    if !str_eq(code.as_str(), "0") {
        return Ok(PlacementOutcome::Rejected { code, message });
    }
    let order_id = match nonempty_member(record, "ordId") {
        Some(o) => o,
        None => {
            return Err(AtkError::ResponseInvalid(String::from_str("placement ordId is missing")));
        },
    };
    Ok(PlacementOutcome::Confirmed { order_id, client_order_id })
}

/// How a cancellation answer is read.
pub open spec fn cancellation_outcome(p: Json, r: Result<CancellationOutcome, AtkError>) -> bool {
    match first_record_of(p) {
        None => r matches Err(e) && record_error(p, e),
        Some(rec) => {
            let code = text_or(field_text(rec, "sCode"@), "0"@);
            let message = text_or(field_text(rec, "sMsg"@), ""@);
            let client = text_or(field_text(rec, "clOrdId"@), ""@);
            let order = nonblank_text(json_get(rec, "ordId"@));
            if code != "0"@ {
                r matches Ok(CancellationOutcome::Rejected { code: c, message: m }) && c@ == code && m@ == message
            } else if order is None {
                r matches Err(AtkError::ResponseInvalid(m)) && m@ == "ordId"@ + " is missing"@
            } else {
                r matches Ok(CancellationOutcome::Confirmed { order_id, client_order_id }) && order_id@ == order->0
                    && client_order_id@ == client
            }
        },
    }
}

pub fn parse_cancellation(payload: &Json) -> (r: Result<CancellationOutcome, AtkError>)
    ensures
        cancellation_outcome(*payload, r),
{
    let record = match first_record(payload) {
        Ok(x) => x,
        Err(e) => {
            return Err(e);
        },
    };
    let (code, message) = code_and_message(record);
    let client_order_id = optional_string_field(record, "clOrdId");
    if !str_eq(code.as_str(), "0") {
        return Ok(CancellationOutcome::Rejected { code, message });
    }
    let order_id = match string_field(record, "ordId") {
        Ok(x) => x,
        Err(e) => {
            return Err(e);
        },
    };
    Ok(CancellationOutcome::Confirmed { order_id, client_order_id })
}

/// The average price member is present and is not the empty string.
pub open spec fn has_average(rec: Json) -> bool {
    json_get(rec, "avgPx"@) is Some && text_of(json_get(rec, "avgPx"@)) != Some(Seq::<char>::empty())
}

/// What a successfully read order status holds.
pub open spec fn order_status_of(p: Json, s: OrderStatus) -> bool {
    first_record_of(p) matches Some(rec) && {
        &&& nonblank_text(json_get(rec, "ordId"@)) == Some(s.order_id@)
        &&& s.client_order_id@ == text_or(field_text(rec, "clOrdId"@), ""@)
        &&& nonblank_text(json_get(rec, "state"@)) matches Some(st) && match known_state(st) {
            Some(k) => s.state == k,
            None => s.state matches OrderState::Unknown(t) && t@ == st,
        }
        &&& field_decimal(rec, "accFillSz"@) == Some(s.filled_quantity@)
        &&& match s.average_price {
            Some(a) => has_average(rec) && decimal_of(json_get(rec, "avgPx"@)->0) == Some(a@),
            None => !has_average(rec),
        }
    }
}

/// A status can be read: every member it needs is there and well formed.
pub open spec fn order_status_readable(p: Json) -> bool {
    first_record_of(p) matches Some(rec) && {
        &&& nonblank_text(json_get(rec, "ordId"@)) is Some
        &&& nonblank_text(json_get(rec, "state"@)) is Some
        &&& field_decimal(rec, "accFillSz"@) is Some
        &&& (has_average(rec) ==> decimal_of(json_get(rec, "avgPx"@)->0) is Some)
    }
}

pub fn parse_order_status(payload: &Json) -> (r: Result<OrderStatus, AtkError>)
    ensures
        r is Ok <==> order_status_readable(*payload),
        r matches Ok(s) ==> order_status_of(*payload, s),
        first_record_of(*payload) is None ==> (r matches Err(e) && record_error(*payload, e)),
{
    let record = match first_record(payload) {
        Ok(x) => x,
        Err(e) => {
            return Err(e);
        },
    };
    let order_id = match string_field(record, "ordId") {
        Ok(x) => x,
        Err(e) => {
            return Err(e);
        },
    };
    let client_order_id = optional_string_field(record, "clOrdId");
    proof {
        assert(first_record_of(*payload) == Some(*record));
    }
    let state_text = match string_field(record, "state") {
        Ok(x) => x,
        Err(e) => {
            return Err(e);
        },
    };
    let state = match OrderStatus::from_exchange(state_text.as_str()) {
        Ok(x) => x,
        Err(e) => {
            return Err(e);
        },
    };
    let filled_quantity = match decimal_field(record, "accFillSz") {
        Ok(x) => x,
        Err(e) => {
            return Err(e);
        },
    };
    let average_price = match record.get("avgPx") {
        Some(v) => {
            let empty = match v.as_str() {
                Some(t) => {
                    proof {
                        if t@.len() == 0 {
                            assert(t@ =~= Seq::<char>::empty());
                        }
                    }
                    t.unicode_len() == 0
                },
                None => false,
            };
            if empty {
                None
            } else {
                match decimal_value(v, "avgPx") {
                    Ok(x) => {
                        proof {
                            assert(json_get(*record, "avgPx"@) == Some(*v));
                            assert(decimal_of(*v) == Some(x@));
                        }
                        Some(x)
                    },
                    Err(e) => {
                        return Err(e);
                    },
                }
            }
        },
        None => None,
    };
    let status = OrderStatus { order_id, client_order_id, state, filled_quantity, average_price };
    proof {
        let rec = *record;
        assert(nonblank_text(json_get(rec, "ordId"@)) == Some(status.order_id@));
        assert(nonblank_text(json_get(rec, "state"@)) == Some(state_text@));
        assert(field_decimal(rec, "accFillSz"@) == Some(status.filled_quantity@));
        assert(status.client_order_id@ == text_or(field_text(rec, "clOrdId"@), ""@));
        assert(match known_state(state_text@) {
            Some(k) => status.state == k,
            None => status.state matches OrderState::Unknown(t) && t@ == state_text@,
        });
        assert(match status.average_price {
            Some(a) => has_average(rec) && decimal_of(json_get(rec, "avgPx"@)->0) == Some(a@),
            None => !has_average(rec),
        });
        assert(order_status_of(*payload, status));
    }
    Ok(status)
}

/// What a successfully read ticker holds.
pub open spec fn ticker_of(p: Json, requested: Instrument, s: MarketSnapshot) -> bool {
    first_record_of(p) matches Some(rec) && {
        &&& field_text(rec, "instId"@) == Some(requested@)
        &&& s.instrument@ == requested@
        &&& field_decimal(rec, "bidPx"@) == Some(s.bid@)
        &&& field_decimal(rec, "askPx"@) == Some(s.ask@)
        &&& field_decimal(rec, "last"@) == Some(s.last@)
        &&& instant_of(
            if json_get(rec, "ts"@) is Some {
                json_get(rec, "ts"@)->0
            } else {
                json_get(p, "timestamp"@)->0
            },
        ) == Some(s.observed_at)
    }
}

/// A ticker can be read for the requested instrument.
pub open spec fn ticker_readable(p: Json, requested: Instrument) -> bool {
    first_record_of(p) matches Some(rec) && {
        &&& field_text(rec, "instId"@) == Some(requested@)
        &&& valid_symbol(requested@)
        &&& field_decimal(rec, "bidPx"@) is Some
        &&& field_decimal(rec, "askPx"@) is Some
        &&& field_decimal(rec, "last"@) is Some
        &&& (json_get(rec, "ts"@) is Some || json_get(p, "timestamp"@) is Some)
        &&& instant_of(
            if json_get(rec, "ts"@) is Some {
                json_get(rec, "ts"@)->0
            } else {
                json_get(p, "timestamp"@)->0
            },
        ) is Some
    }
}

pub fn parse_market_snapshot(payload: &Json, requested: &Instrument) -> (r: Result<MarketSnapshot, AtkError>)
    ensures
        r is Ok <==> ticker_readable(*payload, *requested),
        r matches Ok(s) ==> ticker_of(*payload, *requested, s),
        first_record_of(*payload) is None ==> (r matches Err(e) && record_error(*payload, e)),
        (first_record_of(*payload) matches Some(rec) && field_text(rec, "instId"@) is None) ==> (r matches Err(
            AtkError::ResponseInvalid(m),
        ) && m@ == "market ticker instId is missing"@),
        (first_record_of(*payload) matches Some(rec) && field_text(rec, "instId"@) matches Some(a) && valid_symbol(a)
            && a != requested@) ==> (r matches Err(AtkError::ResponseInvalid(m)) && m@
            == "market instrument does not match request"@),
{
    let record = match first_record(payload) {
        Ok(x) => x,
        Err(e) => {
            return Err(e);
        },
    };
    let actual = match record.text_field("instId") {
        Some(a) => a,
        None => {
            return Err(AtkError::ResponseInvalid(String::from_str("market ticker instId is missing")));
        },
    };
    let instrument = match Instrument::parse(actual) {
        Ok(i) => i,
        Err(error) => {
            let text = error.message();
            return Err(AtkError::ResponseInvalid(concat("invalid market instrument: ", text.as_str())));
        },
    };
    if !instrument.same_as(requested) {
        return Err(AtkError::ResponseInvalid(String::from_str("market instrument does not match request")));
    }
    let bid = match decimal_field(record, "bidPx") {
        Ok(x) => x,
        Err(e) => {
            return Err(e);
        },
    };
    let ask = match decimal_field(record, "askPx") {
        Ok(x) => x,
        Err(e) => {
            return Err(e);
        },
    };
    let last = match decimal_field(record, "last") {
        Ok(x) => x,
        Err(e) => {
            return Err(e);
        },
    };
    let observed_at = match timestamp_field(record.get("ts"), payload.get("timestamp")) {
        Ok(x) => x,
        Err(e) => {
            return Err(e);
        },
    };
    Ok(MarketSnapshot { instrument, bid, ask, last, observed_at })
}

/// The balance a detail record holds, where it holds one.
pub open spec fn balance_of(d: Json) -> Option<(Seq<char>, DecView, DecView)> {
    if !(d is Object) {
        None
    } else {
        match nonblank_text(json_get(d, "ccy"@)) {
            Some(asset) => {
                let total = if field_decimal(d, "cashBal"@) is Some {
                    field_decimal(d, "cashBal"@)
                } else {
                    field_decimal(d, "eq"@)
                };
                let available = if field_decimal(d, "availBal"@) is Some {
                    field_decimal(d, "availBal"@)
                } else {
                    field_decimal(d, "availEq"@)
                };
                if total is Some && available is Some {
                    Some((asset, total->0, available->0))
                } else {
                    None
                }
            },
            None => None,
        }
    }
}

fn parse_balance(detail: &Json) -> (r: Result<AssetBalance, AtkError>)
    ensures
        r is Ok <==> balance_of(*detail) is Some,
        r matches Ok(b) ==> balance_of(*detail) == Some((b.asset@, b.total@, b.available@)),
        !(*detail is Object) ==> (r matches Err(AtkError::ResponseInvalid(m)) && m@
            == "account balance detail is not an object"@),
{
    if !detail.is_object() {
        return Err(AtkError::ResponseInvalid(String::from_str("account balance detail is not an object")));
    }
    let asset = match detail.text_field("ccy") {
        Some(a) => {
            if str_is_blank(a) {
                return Err(AtkError::ResponseInvalid(String::from_str("account balance currency is missing")));
            }
            String::from_str(a)
        },
        None => {
            return Err(AtkError::ResponseInvalid(String::from_str("account balance currency is missing")));
        },
    };
    let total = match decimal_field(detail, "cashBal") {
        Ok(d) => d,
        Err(_) => decimal_field(detail, "eq")?,
    };
    let available = match decimal_field(detail, "availBal") {
        Ok(d) => d,
        Err(_) => decimal_field(detail, "availEq")?,
    };
    Ok(AssetBalance { asset, total, available })
}

/// The detail records of an account payload.
pub open spec fn details_of(p: Json) -> Option<Seq<Json>> {
    match first_record_of(p) {
        Some(acc) => match json_get(acc, "details"@) {
            Some(Json::Array(items)) => Some(items@),
            _ => None,
        },
        None => None,
    }
}

/// An account payload can be read: every detail holds a balance and the
/// payload's timestamp is readable.
pub open spec fn account_readable(p: Json) -> bool {
    details_of(p) matches Some(ds) && (forall|i: int| 0 <= i < ds.len() ==> (#[trigger] balance_of(ds[i])) is Some)
        && json_get(p, "timestamp"@) is Some && instant_of(json_get(p, "timestamp"@)->0) is Some
}

pub fn parse_account_snapshot(payload: &Json) -> (r: Result<AccountSnapshot, AtkError>)
    ensures
        r is Ok <==> account_readable(*payload),
        r matches Ok(s) ==> details_of(*payload) matches Some(ds) && s.balances@.len() == ds.len() && (forall|i: int|
            0 <= i < ds.len() ==> balance_of(ds[i]) == Some(
                (
                    (#[trigger] s.balances@[i]).asset@,
                    s.balances@[i].total@,
                    s.balances@[i].available@,
                ),
            )) && Some(s.observed_at) == instant_of(json_get(*payload, "timestamp"@)->0),
        first_record_of(*payload) is None ==> (r matches Err(e) && record_error(*payload, e)),
        (first_record_of(*payload) is Some && details_of(*payload) is None) ==> (r matches Err(
            AtkError::ResponseInvalid(m),
        ) && m@ == "account balance details are missing"@),
{
    let account = match first_record(payload) {
        Ok(x) => x,
        Err(e) => {
            return Err(e);
        },
    };
    let details = match account.get("details") {
        Some(d) => match d.as_array() {
            Some(items) => items,
            None => {
                return Err(AtkError::ResponseInvalid(String::from_str("account balance details are missing")));
            },
        },
        None => {
            return Err(AtkError::ResponseInvalid(String::from_str("account balance details are missing")));
        },
    };
    let mut balances: Vec<AssetBalance> = Vec::new();
    let mut i: usize = 0;
    while i < details.len()
        invariant
            i <= details@.len(),
            details_of(*payload) == Some(details@),
            balances@.len() == i,
            forall|k: int| 0 <= k < i ==> balance_of(details@[k]) == Some(
                ((#[trigger] balances@[k]).asset@, balances@[k].total@, balances@[k].available@),
            ),
        decreases details.len() - i,
    {
        let balance = match parse_balance(&details[i]) {
            Ok(x) => x,
            Err(e) => {
                return Err(e);
            },
        };
        balances.push(balance);
        i = i + 1;
    }
    proof {
        assert forall|k: int| 0 <= k < details@.len() implies (#[trigger] balance_of(details@[k])) is Some by {
            assert(balance_of(details@[k]) == Some((balances@[k].asset@, balances@[k].total@, balances@[k].available@)));
        }
    }
    let observed_at = match timestamp_field(None, payload.get("timestamp")) {
        Ok(x) => x,
        Err(e) => {
            return Err(e);
        },
    };
    Ok(AccountSnapshot { balances, observed_at })
}

/// Why the outcome of an order mutation is unknown after a failed call.
pub open spec fn unknown_reason(e: AtkError) -> Seq<char> {
    match e {
        AtkError::Transport(McpError::RequestTimeout { .. }) => "request timeout"@,
        AtkError::Transport(McpError::ProcessExited) => "process exited"@,
        AtkError::Transport(McpError::MalformedJson(_)) => "malformed MCP response"@,
        AtkError::ProtocolResponseInvalid(_) => "invalid MCP response"@,
        AtkError::ResponseInvalid(_) => "invalid MCP response"@,
        _ => "ambiguous mutation: "@ + atk_error_text(e),
    }
}

pub fn mutation_unknown_reason(error: &AtkError) -> (s: String)
    ensures
        s@ == unknown_reason(*error),
{
    match error {
        AtkError::Transport(McpError::RequestTimeout { .. }) => String::from_str("request timeout"),
        AtkError::Transport(McpError::ProcessExited) => String::from_str("process exited"),
        AtkError::Transport(McpError::MalformedJson(_)) => String::from_str("malformed MCP response"),
        AtkError::ProtocolResponseInvalid(_) => String::from_str("invalid MCP response"),
        AtkError::ResponseInvalid(_) => String::from_str("invalid MCP response"),
        _ => {
            let text = error.message();
            concat("ambiguous mutation: ", text.as_str())
        },
    }
}

} // verus!
