//! The kit as an execution venue: plans become spot orders, statuses and
//! cancellations; whatever cannot be confirmed is reported as unknown.

use vstd::prelude::*;

use super::client::{AtkClient, McpTransport};
use super::orders::{CancelOrderRequest, CancellationOutcome, OrderQuery, OrderSide, OrderState, PlacementOutcome, SizeUnit, SpotOrderRequest};
use super::{AtkHealth, TradingMode};
use crate::domain::decisions::TradeAction;
use crate::execution::{
    ExecutionError, ExecutionGateway, ExecutionPlan, GatewayOrderState, GatewayOrderStatus, GatewayPlacement, PlannedOrderType,
    PlannedSize,
};
use crate::domain::instrument::Instrument;
use crate::risk::OperatingMode;

verus! {

impl From<TradeAction> for OrderSide {
    fn from(action: TradeAction) -> (s: OrderSide) {
        match action {
            TradeAction::Buy => OrderSide::Buy,
            TradeAction::Sell => OrderSide::Sell,
            TradeAction::Hold => OrderSide::Buy,
        }
    }
}

impl vstd::std_specs::convert::FromSpecImpl<TradeAction> for OrderSide {
    open spec fn obeys_from_spec() -> bool {
        true
    }

    open spec fn from_spec(v: TradeAction) -> OrderSide {
        match v {
            TradeAction::Sell => OrderSide::Sell,
            _ => OrderSide::Buy,
        }
    }
}

/// The state of the gateway an exchange order state reads as.
pub open spec fn gateway_state(s: OrderState) -> GatewayOrderState {
    match s {
        OrderState::Open => GatewayOrderState::Open,
        OrderState::PartiallyFilled => GatewayOrderState::PartiallyFilled,
        OrderState::Filled => GatewayOrderState::Filled,
        OrderState::Canceled => GatewayOrderState::Cancelled,
        OrderState::Failed => GatewayOrderState::Rejected,
        OrderState::Unknown(_) => GatewayOrderState::Unknown,
    }
}

/// The spot order a plan becomes: a notional size in the quote currency or
/// a quantity in the base one, at market or at the plan's limit.
fn order_for(plan: &ExecutionPlan) -> (r: Result<SpotOrderRequest, super::AtkError>)
    ensures
        r matches Ok(o) ==> o.instrument == plan.instrument && o.client_order_id == plan.client_order_id
            && o.side == (if plan.action is Sell { OrderSide::Sell } else { OrderSide::Buy })
            && o.size_unit == (if plan.size is Notional { SizeUnit::Quote } else { SizeUnit::Base })
            && o.price == (match plan.order_type {
                PlannedOrderType::Limit { price } => Some(price),
                PlannedOrderType::Market => None,
            }),
{
    let side = OrderSide::from(plan.action);
    let (size, unit) = match plan.size {
        PlannedSize::Notional(s) => (s, SizeUnit::Quote),
        PlannedSize::Quantity(s) => (s, SizeUnit::Base),
    };
    match plan.order_type {
        PlannedOrderType::Market => SpotOrderRequest::market(plan.instrument.clone(), side, size, unit, plan.client_order_id.clone()),
        PlannedOrderType::Limit { price } => SpotOrderRequest::limit(
            plan.instrument.clone(),
            side,
            size,
            unit,
            price,
            plan.client_order_id.clone(),
        ),
    }
}

impl<T: McpTransport> ExecutionGateway for AtkClient<T> {
    /// Places the plan's order; a plan that makes no valid order, or a
    /// placement whose outcome cannot be read, is unknown.
    fn place(&mut self, plan: &ExecutionPlan) -> (r: GatewayPlacement)
        ensures
            old(self).spec_config().read_only ==> r is Unknown,
    {
        let request = match order_for(plan) {
            Ok(o) => o,
            Err(_) => {
                return GatewayPlacement::Unknown { reason: String::from_str("invalid ATK order request") };
            },
        };
        match self.place_spot_order(&request) {
            Ok(PlacementOutcome::Confirmed { order_id, .. }) => GatewayPlacement::Acknowledged { exchange_order_id: order_id },
            Ok(PlacementOutcome::Rejected { code, message }) => GatewayPlacement::Rejected { code, message },
            Ok(PlacementOutcome::Unknown { reason, .. }) => GatewayPlacement::Unknown { reason },
            Err(error) => GatewayPlacement::Unknown { reason: error.message() },
        }
    }

    /// The status of the order with the client ID.
    fn query(&mut self, instrument: &Instrument, client_order_id: &str) -> (r: Result<GatewayOrderStatus, ExecutionError>)
        ensures
            r matches Err(e) ==> e is Gateway,
            r matches Ok(s) ==> s.remaining_quantity is None,
    {
        let status = match self.query_order(&OrderQuery::by_client_id(instrument.clone(), String::from_str(client_order_id))) {
            Ok(s) => s,
            Err(error) => {
                return Err(ExecutionError::Gateway(error.message()));
            },
        };
        let state = match status.state {
            OrderState::Open => GatewayOrderState::Open,
            OrderState::PartiallyFilled => GatewayOrderState::PartiallyFilled,
            OrderState::Filled => GatewayOrderState::Filled,
            OrderState::Canceled => GatewayOrderState::Cancelled,
            OrderState::Failed => GatewayOrderState::Rejected,
            OrderState::Unknown(_) => GatewayOrderState::Unknown,
        };
        Ok(GatewayOrderStatus {
            state,
            filled_quantity: status.filled_quantity,
            remaining_quantity: None,
            average_price: status.average_price,
        })
    }

    /// Cancels the order with the client ID; an outcome that cannot be read
    /// is unknown.
    fn cancel(&mut self, instrument: &Instrument, client_order_id: &str) -> (r: GatewayPlacement)
        ensures
            old(self).spec_config().read_only ==> r is Unknown,
    {
        match self.cancel_order(&CancelOrderRequest::by_client_id(instrument.clone(), String::from_str(client_order_id))) {
            Ok(CancellationOutcome::Confirmed { order_id, .. }) => GatewayPlacement::Acknowledged { exchange_order_id: order_id },
            Ok(CancellationOutcome::Rejected { code, message }) => GatewayPlacement::Rejected { code, message },
            Ok(CancellationOutcome::Unknown { reason, .. }) => GatewayPlacement::Unknown { reason },
            Err(error) => GatewayPlacement::Unknown { reason: error.message() },
        }
    }

    /// Ready, with every capability execution needs.
    fn is_available(&self) -> (b: bool)
        ensures
            b == (self.spec_health().status == AtkHealth::Ready && self.spec_capabilities().execution_ready),
    {
        self.health().status == AtkHealth::Ready && self.capabilities().execution_ready
    }

    open spec fn spec_mode(&self) -> OperatingMode {
        if self.spec_config().mode is Demo {
            OperatingMode::Demo
        } else {
            OperatingMode::Live
        }
    }

    fn operating_mode(&self) -> (m: OperatingMode) {
        match self.trading_mode() {
            TradingMode::Demo => OperatingMode::Demo,
            TradingMode::Live => OperatingMode::Live,
        }
    }
}

} // verus!
