//! Spot order requests, queries and cancellations, and what the kit answers.

use vstd::prelude::*;

use super::error::AtkError;
use super::json::{json_is_text, Json};
use crate::dec::{decimal_text, units, Dec};
use crate::domain::error::domain_error_text;
use crate::domain::instrument::{valid_symbol, Instrument};
use crate::text::{has_ws, is_blank, str_has_whitespace, str_is_blank, utf8_len, utf8_len_exceeds};
use crate::timestamp::Timestamp;

verus! {

#[derive(Debug, PartialEq, Eq)]
pub struct MarketSnapshot {
    pub instrument: Instrument,
    pub bid: Dec,
    pub ask: Dec,
    pub last: Dec,
    pub observed_at: Timestamp,
}

#[derive(Debug, PartialEq, Eq)]
pub struct AssetBalance {
    pub asset: String,
    pub total: Dec,
    pub available: Dec,
}

#[derive(Debug, PartialEq, Eq)]
pub struct AccountSnapshot {
    pub balances: Vec<AssetBalance>,
    pub observed_at: Timestamp,
}

#[derive(Clone, Copy, Debug, PartialEq, Eq, Structural)]
pub enum OrderSide {
    Buy,
    Sell,
}

pub open spec fn side_text(s: OrderSide) -> Seq<char> {
    match s {
        OrderSide::Buy => "buy"@,
        OrderSide::Sell => "sell"@,
    }
}

impl OrderSide {
    pub fn as_str(self) -> (s: &'static str)
        ensures
            s@ == side_text(self),
    {
        match self {
            OrderSide::Buy => "buy",
            OrderSide::Sell => "sell",
        }
    }
}

#[derive(Clone, Copy, Debug, PartialEq, Eq, Structural)]
pub enum SizeUnit {
    Base,
    Quote,
}

pub open spec fn unit_text(u: SizeUnit) -> Seq<char> {
    match u {
        SizeUnit::Base => "base_ccy"@,
        SizeUnit::Quote => "quote_ccy"@,
    }
}

impl SizeUnit {
    pub fn as_str(self) -> (s: &'static str)
        ensures
            s@ == unit_text(self),
    {
        match self {
            SizeUnit::Base => "base_ccy",
            SizeUnit::Quote => "quote_ccy",
        }
    }
}

#[derive(Clone, Copy, Debug, PartialEq, Eq, Structural)]
pub enum OrderType {
    Market,
    Limit,
}

pub open spec fn order_type_text(t: OrderType) -> Seq<char> {
    match t {
        OrderType::Market => "market"@,
        OrderType::Limit => "limit"@,
    }
}

impl OrderType {
    pub fn as_str(self) -> (s: &'static str)
        ensures
            s@ == order_type_text(self),
    {
        match self {
            OrderType::Market => "market",
            OrderType::Limit => "limit",
        }
    }
}

#[derive(Debug, PartialEq, Eq)]
pub struct SpotOrderRequest {
    pub instrument: Instrument,
    pub side: OrderSide,
    pub size: Dec,
    pub size_unit: SizeUnit,
    pub price: Option<Dec>,
    pub client_order_id: String,
    pub order_type: OrderType,
}

/// The first rule a spot order breaks, by its message.
pub open spec fn order_fault(
    instrument: Instrument,
    size: Dec,
    price: Option<Dec>,
    client_order_id: Seq<char>,
    order_type: OrderType,
) -> Option<Seq<char>> {
    if units(size@) <= 0 {
        Some("size must be greater than zero"@)
    } else if order_type is Limit && (match price {
        Some(p) => units(p@) <= 0,
        None => true,
    }) {
        Some("limit price must be greater than zero"@)
    } else if is_blank(client_order_id) {
        Some("client order ID is required"@)
    } else if utf8_len(client_order_id) > 32 {
        Some("client order ID cannot exceed 32 bytes"@)
    } else if has_ws(client_order_id) {
        Some("client order ID cannot contain whitespace"@)
    } else if !valid_symbol(instrument@) {
        Some(domain_error_text(crate::domain::error::DomainError::InvalidInstrument))
    } else {
        None
    }
}

/// A JSON object whose members are the given keys and texts, in order.
pub open spec fn text_members(e: Seq<(String, Json)>, m: Seq<(Seq<char>, Seq<char>)>) -> bool {
    &&& e.len() == m.len()
    &&& forall|i: int| 0 <= i < e.len() ==> (#[trigger] e[i]).0@ == m[i].0 && json_is_text(e[i].1, m[i].1)
}

/// The members of a spot order's arguments.
pub open spec fn order_members(r: SpotOrderRequest) -> Seq<(Seq<char>, Seq<char>)> {
    let base = seq![
        ("instId"@, r.instrument@),
        ("tdMode"@, "cash"@),
        ("side"@, side_text(r.side)),
        ("ordType"@, order_type_text(r.order_type)),
        ("sz"@, decimal_text(r.size@)),
        ("tgtCcy"@, unit_text(r.size_unit)),
        ("clOrdId"@, r.client_order_id@),
    ];
    match r.price {
        Some(p) => base.push(("px"@, decimal_text(p@))),
        None => base,
    }
}

fn push_text(entries: &mut Vec<(String, Json)>, key: &str, value: String)
    ensures
        final(entries)@.len() == old(entries)@.len() + 1,
        final(entries)@.drop_last() == old(entries)@,
        final(entries)@.last().0@ == key@,
        final(entries)@.last().1 == Json::Text(value),
{
    entries.push((String::from_str(key), Json::Text(value)));
}

impl SpotOrderRequest {
    pub closed spec fn spec_order_type(&self) -> OrderType {
        self.order_type
    }

    pub fn market(instrument: Instrument, side: OrderSide, size: Dec, size_unit: SizeUnit, client_order_id: String) -> (r: Result<SpotOrderRequest, AtkError>)
        ensures
            r is Ok <==> order_fault(instrument, size, None, client_order_id@, OrderType::Market) is None,
            r matches Err(e) ==> e matches AtkError::InvalidOrderRequest(m)
                && Some(m@) == order_fault(instrument, size, None, client_order_id@, OrderType::Market),
            r matches Ok(o) ==> o.instrument == instrument && o.side == side && o.size == size && o.size_unit == size_unit
                && o.price is None && o.client_order_id == client_order_id && o.spec_order_type() == OrderType::Market,
    {
        Self::build(instrument, side, size, size_unit, None, client_order_id, OrderType::Market)
    }

    pub fn limit(instrument: Instrument, side: OrderSide, size: Dec, size_unit: SizeUnit, price: Dec, client_order_id: String) -> (r: Result<SpotOrderRequest, AtkError>)
        ensures
            r is Ok <==> order_fault(instrument, size, Some(price), client_order_id@, OrderType::Limit) is None,
            r matches Err(e) ==> e matches AtkError::InvalidOrderRequest(m)
                && Some(m@) == order_fault(instrument, size, Some(price), client_order_id@, OrderType::Limit),
            r matches Ok(o) ==> o.instrument == instrument && o.side == side && o.size == size && o.size_unit == size_unit
                && o.price == Some(price) && o.client_order_id == client_order_id && o.spec_order_type() == OrderType::Limit,
    {
        Self::build(instrument, side, size, size_unit, Some(price), client_order_id, OrderType::Limit)
    }

    fn build(
        instrument: Instrument,
        side: OrderSide,
        size: Dec,
        size_unit: SizeUnit,
        price: Option<Dec>,
        client_order_id: String,
        order_type: OrderType,
    ) -> (r: Result<SpotOrderRequest, AtkError>)
        ensures
            r is Ok <==> order_fault(instrument, size, price, client_order_id@, order_type) is None,
            r matches Err(e) ==> e matches AtkError::InvalidOrderRequest(m)
                && Some(m@) == order_fault(instrument, size, price, client_order_id@, order_type),
            r matches Ok(o) ==> o == (SpotOrderRequest { instrument, side, size, size_unit, price, client_order_id, order_type }),
    {
        if !size.is_positive() {
            return Err(AtkError::InvalidOrderRequest(String::from_str("size must be greater than zero")));
        }
        let bad_price = match &price {
            Some(p) => !p.is_positive(),
            None => true,
        };
        if order_type == OrderType::Limit && bad_price {
            return Err(AtkError::InvalidOrderRequest(String::from_str("limit price must be greater than zero")));
        }
        if str_is_blank(client_order_id.as_str()) {
            return Err(AtkError::InvalidOrderRequest(String::from_str("client order ID is required")));
        }
        if utf8_len_exceeds(client_order_id.as_str(), 32) {
            return Err(AtkError::InvalidOrderRequest(String::from_str("client order ID cannot exceed 32 bytes")));
        }
        if str_has_whitespace(client_order_id.as_str()) {
            return Err(AtkError::InvalidOrderRequest(String::from_str("client order ID cannot contain whitespace")));
        }
        match instrument.validate() {
            Ok(()) => {},
            Err(error) => {
                return Err(AtkError::InvalidOrderRequest(error.message()));
            },
        }
        Ok(SpotOrderRequest { instrument, side, size, size_unit, price, client_order_id, order_type })
    }

    /// The arguments of the kit's `spot_place_order` tool: a cash order of
    /// the request's side, type, size and unit, its client ID, and the limit
    /// price where there is one.
    pub fn arguments(&self) -> (v: Json)
        ensures
            v matches Json::Object(e) && text_members(e@, order_members(*self)),
    {
        let mut entries: Vec<(String, Json)> = Vec::new();
        push_text(&mut entries, "instId", self.instrument.to_symbol_string());
        push_text(&mut entries, "tdMode", String::from_str("cash"));
        push_text(&mut entries, "side", String::from_str(self.side.as_str()));
        push_text(&mut entries, "ordType", String::from_str(self.order_type.as_str()));
        push_text(&mut entries, "sz", self.size.to_text());
        push_text(&mut entries, "tgtCcy", String::from_str(self.size_unit.as_str()));
        push_text(&mut entries, "clOrdId", self.client_order_id.clone());
        match &self.price {
            Some(p) => {
                push_text(&mut entries, "px", p.to_text());
            },
            None => {},
        }
        proof {
            let m = order_members(*self);
            assert(entries@.len() == m.len());
            assert forall|i: int| 0 <= i < entries@.len() implies (#[trigger] entries@[i]).0@ == m[i].0
                && json_is_text(entries@[i].1, m[i].1) by {
            }
        }
        Json::Object(entries)
    }
}

#[derive(Debug, PartialEq, Eq)]
pub enum PlacementOutcome {
    Confirmed { order_id: String, client_order_id: String },
    Rejected { code: String, message: String },
    Unknown { client_order_id: String, reason: String },
}

#[derive(Debug, PartialEq, Eq)]
pub enum CancellationOutcome {
    Confirmed { order_id: String, client_order_id: String },
    Rejected { code: String, message: String },
    Unknown { client_order_id: String, reason: String },
}

#[derive(Debug, PartialEq, Eq)]
pub enum OrderState {
    Open,
    PartiallyFilled,
    Filled,
    Canceled,
    Failed,
    Unknown(String),
}

#[derive(Debug, PartialEq, Eq)]
pub struct OrderStatus {
    pub order_id: String,
    pub client_order_id: String,
    pub state: OrderState,
    pub filled_quantity: Dec,
    pub average_price: Option<Dec>,
}

/// The order state a known exchange state reads as.
pub open spec fn known_state(value: Seq<char>) -> Option<OrderState> {
    if value == "live"@ {
        Some(OrderState::Open)
    } else if value == "partially_filled"@ {
        Some(OrderState::PartiallyFilled)
    } else if value == "filled"@ {
        Some(OrderState::Filled)
    } else if value == "canceled"@ || value == "mmp_canceled"@ {
        Some(OrderState::Canceled)
    } else if value == "order_failed"@ {
        Some(OrderState::Failed)
    } else {
        None
    }
}

impl OrderStatus {
    /// Reads the exchange's order state; an unknown non-blank state is kept
    /// as text.
    pub fn from_exchange(value: &str) -> (r: Result<OrderState, AtkError>)
        ensures
            r is Ok <==> (known_state(value@) is Some || !is_blank(value@)),
            r matches Ok(s) ==> match known_state(value@) {
                Some(k) => s == k,
                None => s matches OrderState::Unknown(t) && t@ == value@,
            },
            r matches Err(e) ==> e matches AtkError::ResponseInvalid(m) && m@ == "order state is empty"@,
    {
        let s = String::from_str(value);
        if s == String::from_str("live") {
            Ok(OrderState::Open)
        } else if s == String::from_str("partially_filled") {
            Ok(OrderState::PartiallyFilled)
        } else if s == String::from_str("filled") {
            Ok(OrderState::Filled)
        } else if s == String::from_str("canceled") || s == String::from_str("mmp_canceled") {
            Ok(OrderState::Canceled)
        } else if s == String::from_str("order_failed") {
            Ok(OrderState::Failed)
        } else if !str_is_blank(value) {
            Ok(OrderState::Unknown(s))
        } else {
            Err(AtkError::ResponseInvalid(String::from_str("order state is empty")))
        }
    }
}

/// Exactly one of the two identifiers is given.
pub open spec fn one_identifier(order_id: Option<String>, client_order_id: Option<String>) -> Option<Seq<char>> {
    match (order_id, client_order_id) {
        (Some(i), None) => Some(i@),
        (None, Some(c)) => Some(c@),
        _ => None,
    }
}

/// The rule an order lookup breaks, by its message.
pub open spec fn lookup_fault(instrument: Instrument, order_id: Option<String>, client_order_id: Option<String>) -> Option<Seq<char>> {
    if !valid_symbol(instrument@) {
        Some(domain_error_text(crate::domain::error::DomainError::InvalidInstrument))
    } else {
        match one_identifier(order_id, client_order_id) {
            Some(id) => if !is_blank(id) && !has_ws(id) {
                None
            } else {
                Some("exactly one non-empty order identifier is required"@)
            },
            None => Some("exactly one non-empty order identifier is required"@),
        }
    }
}

/// The arguments of a lookup by one identifier: the instrument and `ordId`
/// or `clOrdId`.
pub open spec fn lookup_arguments(v: Json, instrument: Instrument, order_id: Option<String>, client_order_id: Option<String>) -> bool {
    match v {
        Json::Object(e) => {
            &&& e@.len() == 2
            &&& e@[0].0@ == "instId"@
            &&& json_is_text(e@[0].1, instrument@)
            &&& match (order_id, client_order_id) {
                (Some(i), None) => e@[1].0@ == "ordId"@ && json_is_text(e@[1].1, i@),
                (None, Some(c)) => e@[1].0@ == "clOrdId"@ && json_is_text(e@[1].1, c@),
                _ => false,
            }
        },
        _ => false,
    }
}

fn identified_arguments(instrument: &Instrument, order_id: &Option<String>, client_order_id: &Option<String>) -> (r: Result<Json, AtkError>)
    ensures
        r is Ok <==> one_identifier(*order_id, *client_order_id) is Some,
        r matches Ok(v) ==> lookup_arguments(v, *instrument, *order_id, *client_order_id),
        r matches Err(e) ==> e matches AtkError::InvalidOrderRequest(m) && m@ == "exactly one order identifier is required"@,
{
    let mut entries: Vec<(String, Json)> = Vec::new();
    push_text(&mut entries, "instId", instrument.to_symbol_string());
    match (order_id, client_order_id) {
        (Some(id), None) => {
            push_text(&mut entries, "ordId", id.clone());
        },
        (None, Some(id)) => {
            push_text(&mut entries, "clOrdId", id.clone());
        },
        _ => {
            return Err(AtkError::InvalidOrderRequest(String::from_str("exactly one order identifier is required")));
        },
    }
    Ok(Json::Object(entries))
}

fn check_lookup(instrument: &Instrument, order_id: &Option<String>, client_order_id: &Option<String>) -> (r: Result<(), AtkError>)
    ensures
        r is Ok <==> lookup_fault(*instrument, *order_id, *client_order_id) is None,
        r matches Err(e) ==> e matches AtkError::InvalidOrderRequest(m) && Some(m@) == lookup_fault(*instrument, *order_id, *client_order_id),
{
    match instrument.validate() {
        Ok(()) => {},
        Err(error) => {
            return Err(AtkError::InvalidOrderRequest(error.message()));
        },
    }
    let identifier = match (order_id, client_order_id) {
        (Some(id), None) => Some(id),
        (None, Some(id)) => Some(id),
        _ => None,
    };
    match identifier {
        Some(id) => {
            if !str_is_blank(id.as_str()) && !str_has_whitespace(id.as_str()) {
                return Ok(());
            }
        },
        None => {},
    }
    Err(AtkError::InvalidOrderRequest(String::from_str("exactly one non-empty order identifier is required")))
}

#[derive(Debug, PartialEq, Eq)]
pub struct OrderQuery {
    pub instrument: Instrument,
    pub order_id: Option<String>,
    pub client_order_id: Option<String>,
}

impl OrderQuery {
    pub fn by_client_id(instrument: Instrument, client_order_id: String) -> (q: OrderQuery)
        ensures
            q == (OrderQuery { instrument, order_id: None, client_order_id: Some(client_order_id) }),
    {
        OrderQuery { instrument, order_id: None, client_order_id: Some(client_order_id) }
    }

    pub fn by_order_id(instrument: Instrument, order_id: String) -> (q: OrderQuery)
        ensures
            q == (OrderQuery { instrument, order_id: Some(order_id), client_order_id: None }),
    {
        OrderQuery { instrument, order_id: Some(order_id), client_order_id: None }
    }

    pub fn arguments(&self) -> (r: Result<Json, AtkError>)
        ensures
            r is Ok <==> one_identifier(self.order_id, self.client_order_id) is Some,
            r matches Ok(v) ==> lookup_arguments(v, self.instrument, self.order_id, self.client_order_id),
            r matches Err(e) ==> e matches AtkError::InvalidOrderRequest(m) && m@ == "exactly one order identifier is required"@,
    {
        identified_arguments(&self.instrument, &self.order_id, &self.client_order_id)
    }

    pub fn validate(&self) -> (r: Result<(), AtkError>)
        ensures
            r is Ok <==> lookup_fault(self.instrument, self.order_id, self.client_order_id) is None,
            r matches Err(e) ==> e matches AtkError::InvalidOrderRequest(m)
                && Some(m@) == lookup_fault(self.instrument, self.order_id, self.client_order_id),
    {
        check_lookup(&self.instrument, &self.order_id, &self.client_order_id)
    }
}

#[derive(Debug, PartialEq, Eq)]
pub struct CancelOrderRequest {
    pub instrument: Instrument,
    pub order_id: Option<String>,
    pub client_order_id: Option<String>,
}

impl CancelOrderRequest {
    pub fn by_client_id(instrument: Instrument, client_order_id: String) -> (q: CancelOrderRequest)
        ensures
            q == (CancelOrderRequest { instrument, order_id: None, client_order_id: Some(client_order_id) }),
    {
        CancelOrderRequest { instrument, order_id: None, client_order_id: Some(client_order_id) }
    }

    pub fn by_order_id(instrument: Instrument, order_id: String) -> (q: CancelOrderRequest)
        ensures
            q == (CancelOrderRequest { instrument, order_id: Some(order_id), client_order_id: None }),
    {
        CancelOrderRequest { instrument, order_id: Some(order_id), client_order_id: None }
    }

    pub fn arguments(&self) -> (r: Result<Json, AtkError>)
        ensures
            r is Ok <==> one_identifier(self.order_id, self.client_order_id) is Some,
            r matches Ok(v) ==> lookup_arguments(v, self.instrument, self.order_id, self.client_order_id),
            r matches Err(e) ==> e matches AtkError::InvalidOrderRequest(m) && m@ == "exactly one order identifier is required"@,
    {
        identified_arguments(&self.instrument, &self.order_id, &self.client_order_id)
    }

    pub fn validate(&self) -> (r: Result<(), AtkError>)
        ensures
            r is Ok <==> lookup_fault(self.instrument, self.order_id, self.client_order_id) is None,
            r matches Err(e) ==> e matches AtkError::InvalidOrderRequest(m)
                && Some(m@) == lookup_fault(self.instrument, self.order_id, self.client_order_id),
    {
        check_lookup(&self.instrument, &self.order_id, &self.client_order_id)
    }

    /// The client order ID, where the request names one.
    pub fn client_id(&self) -> (r: Option<String>)
        ensures
            r == self.client_order_id,
    {
        self.client_order_id.clone()
    }
}

} // verus!
