//! Deterministic, synthetic-capital spot execution and accounting.
//!
//! This module consumes canonical instruments and explicit market snapshots.
//! It has no agent, exchange, network, live-order, or risk-policy dependency.

use vstd::prelude::*;

use crate::dec::{add_fits, decimal_add, decimal_div, decimal_mul, decimal_sub, mul_fits, one_units, sub_fits, units, Dec, DecView};
use crate::domain::decisions::TradeAction;
use crate::domain::instrument::{valid_symbol, Instrument};
use crate::timestamp::Timestamp;

pub mod account;
pub mod engine;

pub use account::SimulatedPosition;
pub use engine::SimulationEngine;


verus! {

#[derive(Debug, PartialEq, Eq)]
pub enum SimulationError {
    InvalidConfig { field: &'static str, value: Dec },
    InvalidMarketSnapshot(&'static str),
    UnsupportedInstrument(String),
    InvalidQuantity(Dec),
    InvalidNotional(Dec),
    InvalidPrice(Dec),
    HoldNotExecutable,
    InsufficientFunds { required: Dec, available: Dec },
    InsufficientInventory { requested: Dec, available: Dec },
    OrderNotFound(u64),
    OrderAlreadyFinal(u64),
    MissingMarketSnapshot(String),
    ArithmeticFailure(&'static str),
}

/// A refusal described without building its message: either an error as it
/// stands or the instrument that is not supported.
pub enum SimulationFault {
    Error(SimulationError),
    Unsupported(Instrument),
}

/// `e` is the error that the fault stands for.
pub open spec fn fault_is(f: SimulationFault, e: SimulationError) -> bool {
    match f {
        SimulationFault::Error(x) => e == x,
        SimulationFault::Unsupported(i) => e matches SimulationError::UnsupportedInstrument(s) && s@ == i@,
    }
}

/// `a + b` as rust_decimal computes it, where both are there.
pub open spec fn add_o(a: Option<DecView>, b: Option<DecView>) -> Option<DecView> {
    match (a, b) {
        (Some(x), Some(y)) => decimal_add(x, y),
        _ => None,
    }
}

pub open spec fn sub_o(a: Option<DecView>, b: Option<DecView>) -> Option<DecView> {
    match (a, b) {
        (Some(x), Some(y)) => decimal_sub(x, y),
        _ => None,
    }
}

pub open spec fn mul_o(a: Option<DecView>, b: Option<DecView>) -> Option<DecView> {
    match (a, b) {
        (Some(x), Some(y)) => decimal_mul(x, y),
        _ => None,
    }
}

pub open spec fn div_o(a: Option<DecView>, b: Option<DecView>) -> Option<DecView> {
    match (a, b) {
        (Some(x), Some(y)) => decimal_div(x, y),
        _ => None,
    }
}

/// The checked step's outcome: the value where rust_decimal gives one, an
/// arithmetic failure otherwise.
pub open spec fn step_ok(v: Option<DecView>, r: Result<Dec, SimulationError>) -> bool {
    match v {
        Some(x) => r matches Ok(d) && d@ == x,
        None => r matches Err(SimulationError::ArithmeticFailure(_)),
    }
}

pub fn checked_add(left: Dec, right: Dec, operation: &'static str) -> (r: Result<Dec, SimulationError>)
    ensures
        step_ok(decimal_add(left@, right@), r),
        r matches Err(e) ==> e == SimulationError::ArithmeticFailure(operation),
        add_fits(left@, right@) ==> (r matches Ok(d) && units(d@) == units(left@) + units(right@)),
{
    match left.checked_add(&right) {
        Some(d) => Ok(d),
        None => Err(SimulationError::ArithmeticFailure(operation)),
    }
}

pub fn checked_sub(left: Dec, right: Dec, operation: &'static str) -> (r: Result<Dec, SimulationError>)
    ensures
        step_ok(decimal_sub(left@, right@), r),
        r matches Err(e) ==> e == SimulationError::ArithmeticFailure(operation),
        sub_fits(left@, right@) ==> (r matches Ok(d) && units(d@) == units(left@) - units(right@)),
{
    match left.checked_sub(&right) {
        Some(d) => Ok(d),
        None => Err(SimulationError::ArithmeticFailure(operation)),
    }
}

pub fn checked_mul(left: Dec, right: Dec, operation: &'static str) -> (r: Result<Dec, SimulationError>)
    ensures
        step_ok(decimal_mul(left@, right@), r),
        r matches Err(e) ==> e == SimulationError::ArithmeticFailure(operation),
        mul_fits(left@, right@) ==> (r matches Ok(d) && units(d@) * one_units() == units(left@) * units(right@)),
{
    match left.checked_mul(&right) {
        Some(d) => Ok(d),
        None => Err(SimulationError::ArithmeticFailure(operation)),
    }
}

pub fn checked_div(left: Dec, right: Dec, operation: &'static str) -> (r: Result<Dec, SimulationError>)
    ensures
        step_ok(decimal_div(left@, right@), r),
        r matches Err(e) ==> e == SimulationError::ArithmeticFailure(operation),
{
    match left.checked_div(&right) {
        Some(d) => Ok(d),
        None => Err(SimulationError::ArithmeticFailure(operation)),
    }
}

pub open spec fn one_view() -> DecView {
    (1int, 0nat)
}

pub open spec fn zero_view() -> DecView {
    (0int, 0nat)
}

#[derive(Clone, Copy, Debug, PartialEq, Eq)]
pub enum FeeModel {
    NoFee,
    FixedRate(Dec),
}

/// The fee on a gross notional.
pub open spec fn fee_value(m: FeeModel, gross: DecView) -> Option<DecView> {
    match m {
        FeeModel::NoFee => Some(zero_view()),
        FeeModel::FixedRate(rate) => decimal_mul(gross, rate@),
    }
}

impl FeeModel {
    pub fn validate(self) -> (r: Result<(), SimulationError>)
        ensures
            match self {
                FeeModel::FixedRate(rate) => if units(rate@) < 0 || units(rate@) > one_units() {
                    r == Err::<(), SimulationError>(SimulationError::InvalidConfig { field: "fee_rate", value: rate })
                } else {
                    r is Ok
                },
                FeeModel::NoFee => r is Ok,
            },
    {
        match self {
            FeeModel::FixedRate(rate) => {
                if rate.is_negative() || Dec::one().lt(&rate) {
                    return Err(SimulationError::InvalidConfig { field: "fee_rate", value: rate });
                }
                Ok(())
            },
            FeeModel::NoFee => Ok(()),
        }
    }

    pub fn fee(self, gross_notional: Dec) -> (r: Result<Dec, SimulationError>)
        ensures
            step_ok(fee_value(self, gross_notional@), r),
    {
        match self {
            FeeModel::NoFee => Ok(Dec::zero()),
            FeeModel::FixedRate(rate) => checked_mul(gross_notional, rate, "fee"),
        }
    }
}

#[derive(Clone, Copy, Debug, PartialEq, Eq)]
pub enum SlippageModel {
    NoSlippage,
    FixedBps(Dec),
}

/// The slipped price and the slippage of a buy or a sell at `reference`,
/// given the slippage rate.
pub open spec fn slipped(action: TradeAction, reference: DecView, rate: DecView) -> Option<(DecView, DecView)> {
    let factor = if action == TradeAction::Buy {
        decimal_add(one_view(), rate)
    } else {
        decimal_sub(one_view(), rate)
    };
    let adjusted = mul_o(Some(reference), factor);
    let slippage = if action == TradeAction::Buy {
        sub_o(adjusted, Some(reference))
    } else {
        sub_o(Some(reference), adjusted)
    };
    match (adjusted, slippage) {
        (Some(p), Some(s)) => Some((p, s)),
        _ => None,
    }
}

/// The price after slippage and the slippage, or the failure.
pub open spec fn adjusted_ok(m: SlippageModel, action: TradeAction, reference: Dec, r: Result<(Dec, Dec), SimulationError>) -> bool {
    match m {
        SlippageModel::NoSlippage => r matches Ok((p, s)) && p == reference && s@ == zero_view(),
        SlippageModel::FixedBps(bps) => match decimal_div(bps@, (10000int, 0nat)) {
            None => r matches Err(SimulationError::ArithmeticFailure(_)),
            Some(rate) => if action == TradeAction::Hold {
                r == Err::<(Dec, Dec), SimulationError>(SimulationError::HoldNotExecutable)
            } else {
                match slipped(action, reference@, rate) {
                    Some((p, s)) => r matches Ok((pd, sd)) && pd@ == p && sd@ == s,
                    None => r matches Err(SimulationError::ArithmeticFailure(_)),
                }
            },
        },
    }
}

/// The price after slippage, where it can be computed for a buy, a sell, or
/// a hold with no slippage model.
pub open spec fn adjusted_view(m: SlippageModel, action: TradeAction, reference: DecView) -> Option<DecView> {
    match m {
        SlippageModel::NoSlippage => Some(reference),
        SlippageModel::FixedBps(bps) => match decimal_div(bps@, (10000int, 0nat)) {
            None => None,
            Some(rate) => if action == TradeAction::Hold {
                None
            } else {
                match slipped(action, reference, rate) {
                    Some((p, _)) => Some(p),
                    None => None,
                }
            },
        },
    }
}

impl SlippageModel {
    pub fn validate(self) -> (r: Result<(), SimulationError>)
        ensures
            match self {
                SlippageModel::FixedBps(bps) => if units(bps@) < 0 || units(bps@) >= 10000 * one_units() {
                    r == Err::<(), SimulationError>(SimulationError::InvalidConfig { field: "slippage_bps", value: bps })
                } else {
                    r is Ok
                },
                SlippageModel::NoSlippage => r is Ok,
            },
    {
        match self {
            SlippageModel::FixedBps(bps) => {
                if bps.is_negative() || Dec::from_i64(10_000).le(&bps) {
                    return Err(SimulationError::InvalidConfig { field: "slippage_bps", value: bps });
                }
                Ok(())
            },
            SlippageModel::NoSlippage => Ok(()),
        }
    }

    pub fn adjusted_price(self, action: TradeAction, reference_price: Dec) -> (r: Result<(Dec, Dec), SimulationError>)
        ensures
            adjusted_ok(self, action, reference_price, r),
            r is Ok <==> adjusted_view(self, action, reference_price@) is Some,
            r matches Ok((p, _)) ==> adjusted_view(self, action, reference_price@) == Some(p@),
    {
        let bps = match self {
            SlippageModel::FixedBps(b) => b,
            SlippageModel::NoSlippage => return Ok((reference_price, Dec::zero())),
        };
        let rate = checked_div(bps, Dec::new(10_000, 0), "slippage rate")?;
        let factor = match action {
            TradeAction::Buy => checked_add(Dec::one(), rate, "buy slippage factor")?,
            TradeAction::Sell => checked_sub(Dec::one(), rate, "sell slippage factor")?,
            TradeAction::Hold => return Err(SimulationError::HoldNotExecutable),
        };
        let adjusted = checked_mul(reference_price, factor, "slippage-adjusted price")?;
        let slippage = match action {
            TradeAction::Buy => checked_sub(adjusted, reference_price, "buy slippage")?,
            _ => checked_sub(reference_price, adjusted, "sell slippage")?,
        };
        Ok((adjusted, slippage))
    }
}

#[derive(Clone, Copy, Debug, PartialEq, Eq)]
pub enum FillModel {
    Full,
    Partial(Dec),
    NoFill,
}

impl FillModel {
    pub fn validate(self) -> (r: Result<(), SimulationError>)
        ensures
            match self {
                FillModel::Partial(ratio) => if units(ratio@) <= 0 || units(ratio@) > one_units() {
                    r == Err::<(), SimulationError>(SimulationError::InvalidConfig { field: "partial_fill_ratio", value: ratio })
                } else {
                    r is Ok
                },
                _ => r is Ok,
            },
    {
        match self {
            FillModel::Partial(ratio) => {
                if !ratio.is_positive() || Dec::one().lt(&ratio) {
                    return Err(SimulationError::InvalidConfig { field: "partial_fill_ratio", value: ratio });
                }
                Ok(())
            },
            _ => Ok(()),
        }
    }

    /// How much of `remaining` one fill takes; `None` for a model that never fills.
    pub fn quantity(self, remaining: Dec) -> (r: Result<Option<Dec>, SimulationError>)
        ensures
            match self {
                FillModel::Full => r == Ok::<Option<Dec>, SimulationError>(Some(remaining)),
                FillModel::Partial(ratio) => match decimal_mul(remaining@, ratio@) {
                    Some(q) => r matches Ok(Some(d)) && d@ == q,
                    None => r matches Err(SimulationError::ArithmeticFailure(_)),
                },
                FillModel::NoFill => r == Ok::<Option<Dec>, SimulationError>(None),
            },
    {
        match self {
            FillModel::Full => Ok(Some(remaining)),
            FillModel::Partial(ratio) => Ok(Some(checked_mul(remaining, ratio, "partial fill quantity")?)),
            FillModel::NoFill => Ok(None),
        }
    }
}

#[derive(Debug, PartialEq, Eq)]
pub struct InitialPosition {
    pub instrument: Instrument,
    pub quantity: Dec,
    pub average_entry_price: Dec,
}

impl Clone for InitialPosition {
    fn clone(&self) -> (r: InitialPosition)
        ensures
            r == *self,
    {
        InitialPosition {
            instrument: self.instrument.clone(),
            quantity: self.quantity,
            average_entry_price: self.average_entry_price,
        }
    }
}

#[derive(Debug, PartialEq, Eq)]
pub struct SimulationConfig {
    initial_cash: Dec,
    initial_positions: Vec<InitialPosition>,
    fee_model: FeeModel,
    slippage_model: SlippageModel,
    fill_model: FillModel,
    stop_loss_pct: Dec,
    take_profit_pct: Dec,
}

/// The first initial position, from `i` on, that is refused, with its fault.
pub open spec fn positions_fault(ps: Seq<InitialPosition>, i: int) -> Option<SimulationFault>
    decreases ps.len() - i,
{
    if i < 0 || i >= ps.len() {
        None
    } else {
        let p = ps[i];
        if !valid_symbol(p.instrument@) {
            Some(SimulationFault::Unsupported(p.instrument))
        } else if exists|j: int| 0 <= j < i && (#[trigger] ps[j]).instrument@ == p.instrument@ {
            Some(SimulationFault::Error(SimulationError::InvalidConfig { field: "initial_positions", value: Dec::spec_zero() }))
        } else if units(p.quantity@) <= 0 {
            Some(SimulationFault::Error(SimulationError::InvalidConfig { field: "initial_position.quantity", value: p.quantity }))
        } else if units(p.average_entry_price@) <= 0 {
            Some(SimulationFault::Error(
                SimulationError::InvalidConfig { field: "initial_position.average_entry_price", value: p.average_entry_price },
            ))
        } else {
            positions_fault(ps, i + 1)
        }
    }
}

impl SimulationConfig {
    pub closed spec fn spec_initial_cash(&self) -> Dec {
        self.initial_cash
    }

    pub closed spec fn spec_initial_positions(&self) -> Seq<InitialPosition> {
        self.initial_positions@
    }

    pub closed spec fn spec_fee_model(&self) -> FeeModel {
        self.fee_model
    }

    pub closed spec fn spec_slippage_model(&self) -> SlippageModel {
        self.slippage_model
    }

    pub closed spec fn spec_fill_model(&self) -> FillModel {
        self.fill_model
    }

    pub closed spec fn spec_stop_loss_pct(&self) -> Dec {
        self.stop_loss_pct
    }

    pub closed spec fn spec_take_profit_pct(&self) -> Dec {
        self.take_profit_pct
    }

    /// The first refusal of the configuration, in the order the checks run.
    pub open spec fn fault(&self) -> Option<SimulationFault> {
        let fee = self.spec_fee_model();
        let slip = self.spec_slippage_model();
        let fill = self.spec_fill_model();
        if units(self.spec_initial_cash()@) < 0 {
            Some(SimulationFault::Error(SimulationError::InvalidConfig { field: "initial_cash", value: self.spec_initial_cash() }))
        } else if fee matches FeeModel::FixedRate(rate) && (units(rate@) < 0 || units(rate@) > one_units()) {
            Some(SimulationFault::Error(SimulationError::InvalidConfig { field: "fee_rate", value: fee->0 }))
        } else if slip matches SlippageModel::FixedBps(bps) && (units(bps@) < 0 || units(bps@) >= 10000 * one_units()) {
            Some(SimulationFault::Error(SimulationError::InvalidConfig { field: "slippage_bps", value: slip->0 }))
        } else if fill matches FillModel::Partial(ratio) && (units(ratio@) <= 0 || units(ratio@) > one_units()) {
            Some(SimulationFault::Error(SimulationError::InvalidConfig { field: "partial_fill_ratio", value: fill->0 }))
        } else if units(self.spec_stop_loss_pct()@) <= 0 || units(self.spec_stop_loss_pct()@) >= one_units() {
            Some(SimulationFault::Error(SimulationError::InvalidConfig { field: "stop_loss_pct", value: self.spec_stop_loss_pct() }))
        } else if units(self.spec_take_profit_pct()@) <= 0 {
            Some(SimulationFault::Error(SimulationError::InvalidConfig { field: "take_profit_pct", value: self.spec_take_profit_pct() }))
        } else {
            positions_fault(self.spec_initial_positions(), 0)
        }
    }

    /// A configuration with the given cash, no positions, no fees or
    /// slippage, full fills, a 15% stop-loss and a 30% take-profit.
    pub fn new(initial_cash: Dec) -> (c: SimulationConfig)
        ensures
            c.spec_initial_cash() == initial_cash,
            c.spec_initial_positions() == Seq::<InitialPosition>::empty(),
            c.spec_fee_model() == FeeModel::NoFee,
            c.spec_slippage_model() == SlippageModel::NoSlippage,
            c.spec_fill_model() == FillModel::Full,
            c.spec_stop_loss_pct()@ == (15int, 2nat),
            c.spec_take_profit_pct()@ == (30int, 2nat),
    {
        SimulationConfig {
            initial_cash,
            initial_positions: Vec::new(),
            fee_model: FeeModel::NoFee,
            slippage_model: SlippageModel::NoSlippage,
            fill_model: FillModel::Full,
            stop_loss_pct: Dec::new(15, 2),
            take_profit_pct: Dec::new(30, 2),
        }
    }

    pub fn initial_cash(&self) -> (d: Dec)
        ensures
            d == self.spec_initial_cash(),
    {
        self.initial_cash
    }

    pub fn initial_positions(&self) -> (s: &[InitialPosition])
        ensures
            s@ == self.spec_initial_positions(),
    {
        self.initial_positions.as_slice()
    }

    pub fn fee_model(&self) -> (m: FeeModel)
        ensures
            m == self.spec_fee_model(),
    {
        self.fee_model
    }

    pub fn slippage_model(&self) -> (m: SlippageModel)
        ensures
            m == self.spec_slippage_model(),
    {
        self.slippage_model
    }

    pub fn fill_model(&self) -> (m: FillModel)
        ensures
            m == self.spec_fill_model(),
    {
        self.fill_model
    }

    pub fn stop_loss_pct(&self) -> (d: Dec)
        ensures
            d == self.spec_stop_loss_pct(),
    {
        self.stop_loss_pct
    }

    pub fn take_profit_pct(&self) -> (d: Dec)
        ensures
            d == self.spec_take_profit_pct(),
    {
        self.take_profit_pct
    }

    pub fn with_initial_position(self, instrument: Instrument, quantity: Dec, average_entry_price: Dec) -> (c: SimulationConfig)
        ensures
            c.spec_initial_positions() == self.spec_initial_positions().push(
                InitialPosition { instrument, quantity, average_entry_price },
            ),
            c.spec_initial_cash() == self.spec_initial_cash(),
            c.spec_fee_model() == self.spec_fee_model(),
            c.spec_slippage_model() == self.spec_slippage_model(),
            c.spec_fill_model() == self.spec_fill_model(),
            c.spec_stop_loss_pct() == self.spec_stop_loss_pct(),
            c.spec_take_profit_pct() == self.spec_take_profit_pct(),
    {
        let mut c = self;
        c.initial_positions.push(InitialPosition { instrument, quantity, average_entry_price });
        c
    }

    pub fn with_fee_model(self, fee_model: FeeModel) -> (c: SimulationConfig)
        ensures
            c.spec_initial_cash() == self.spec_initial_cash(),
            c.spec_initial_positions() == self.spec_initial_positions(),
            c.spec_fee_model() == fee_model,
            c.spec_slippage_model() == self.spec_slippage_model(),
            c.spec_fill_model() == self.spec_fill_model(),
            c.spec_stop_loss_pct() == self.spec_stop_loss_pct(),
            c.spec_take_profit_pct() == self.spec_take_profit_pct(),
    {
        SimulationConfig { fee_model, ..self }
    }

    pub fn with_fee_rate(self, rate: Dec) -> (c: SimulationConfig)
        ensures
            c.spec_initial_cash() == self.spec_initial_cash(),
            c.spec_initial_positions() == self.spec_initial_positions(),
            c.spec_fee_model() == FeeModel::FixedRate(rate),
            c.spec_slippage_model() == self.spec_slippage_model(),
            c.spec_fill_model() == self.spec_fill_model(),
            c.spec_stop_loss_pct() == self.spec_stop_loss_pct(),
            c.spec_take_profit_pct() == self.spec_take_profit_pct(),
    {
        self.with_fee_model(FeeModel::FixedRate(rate))
    }

    pub fn with_slippage_model(self, slippage_model: SlippageModel) -> (c: SimulationConfig)
        ensures
            c.spec_initial_cash() == self.spec_initial_cash(),
            c.spec_initial_positions() == self.spec_initial_positions(),
            c.spec_fee_model() == self.spec_fee_model(),
            c.spec_slippage_model() == slippage_model,
            c.spec_fill_model() == self.spec_fill_model(),
            c.spec_stop_loss_pct() == self.spec_stop_loss_pct(),
            c.spec_take_profit_pct() == self.spec_take_profit_pct(),
    {
        SimulationConfig { slippage_model, ..self }
    }

    pub fn with_slippage_bps(self, bps: Dec) -> (c: SimulationConfig)
        ensures
            c.spec_initial_cash() == self.spec_initial_cash(),
            c.spec_initial_positions() == self.spec_initial_positions(),
            c.spec_fee_model() == self.spec_fee_model(),
            c.spec_slippage_model() == SlippageModel::FixedBps(bps),
            c.spec_fill_model() == self.spec_fill_model(),
            c.spec_stop_loss_pct() == self.spec_stop_loss_pct(),
            c.spec_take_profit_pct() == self.spec_take_profit_pct(),
    {
        self.with_slippage_model(SlippageModel::FixedBps(bps))
    }

    pub fn with_fill_model(self, fill_model: FillModel) -> (c: SimulationConfig)
        ensures
            c.spec_initial_cash() == self.spec_initial_cash(),
            c.spec_initial_positions() == self.spec_initial_positions(),
            c.spec_fee_model() == self.spec_fee_model(),
            c.spec_slippage_model() == self.spec_slippage_model(),
            c.spec_fill_model() == fill_model,
            c.spec_stop_loss_pct() == self.spec_stop_loss_pct(),
            c.spec_take_profit_pct() == self.spec_take_profit_pct(),
    {
        SimulationConfig { fill_model, ..self }
    }

    pub fn with_stop_loss_pct(self, stop_loss_pct: Dec) -> (c: SimulationConfig)
        ensures
            c.spec_initial_cash() == self.spec_initial_cash(),
            c.spec_initial_positions() == self.spec_initial_positions(),
            c.spec_fee_model() == self.spec_fee_model(),
            c.spec_slippage_model() == self.spec_slippage_model(),
            c.spec_fill_model() == self.spec_fill_model(),
            c.spec_stop_loss_pct() == stop_loss_pct,
            c.spec_take_profit_pct() == self.spec_take_profit_pct(),
    {
        SimulationConfig { stop_loss_pct, ..self }
    }

    pub fn with_take_profit_pct(self, take_profit_pct: Dec) -> (c: SimulationConfig)
        ensures
            c.spec_initial_cash() == self.spec_initial_cash(),
            c.spec_initial_positions() == self.spec_initial_positions(),
            c.spec_fee_model() == self.spec_fee_model(),
            c.spec_slippage_model() == self.spec_slippage_model(),
            c.spec_fill_model() == self.spec_fill_model(),
            c.spec_stop_loss_pct() == self.spec_stop_loss_pct(),
            c.spec_take_profit_pct() == take_profit_pct,
    {
        SimulationConfig { take_profit_pct, ..self }
    }

    /// Checks the configuration; the first refusal in check order is reported.
    pub fn validate(&self) -> (r: Result<(), SimulationError>)
        ensures
            match self.fault() {
                None => r is Ok,
                Some(f) => r matches Err(e) && fault_is(f, e),
            },
    {
        if self.initial_cash.is_negative() {
            return Err(SimulationError::InvalidConfig { field: "initial_cash", value: self.initial_cash });
        }
        self.fee_model.validate()?;
        self.slippage_model.validate()?;
        self.fill_model.validate()?;
        if !self.stop_loss_pct.is_positive() || Dec::one().le(&self.stop_loss_pct) {
            return Err(SimulationError::InvalidConfig { field: "stop_loss_pct", value: self.stop_loss_pct });
        }
        if !self.take_profit_pct.is_positive() {
            return Err(SimulationError::InvalidConfig { field: "take_profit_pct", value: self.take_profit_pct });
        }
        let ps = &self.initial_positions;
        assert(self.fault() == positions_fault(ps@, 0));
        let mut i: usize = 0;
        while i < ps.len()
            invariant
                i <= ps@.len(),
                self.fault() == positions_fault(ps@, i as int),
            decreases ps.len() - i,
        {
            let p = &ps[i];
            if p.instrument.validate().is_err() {
                return Err(SimulationError::UnsupportedInstrument(p.instrument.to_symbol_string()));
            }
            let mut j: usize = 0;
            while j < i
                invariant
                    i < ps@.len(),
                    j <= i,
                    self.fault() == positions_fault(ps@, i as int),
                    valid_symbol(ps@[i as int].instrument@),
                    forall|k: int| 0 <= k < j ==> (#[trigger] ps@[k]).instrument@ != ps@[i as int].instrument@,
                decreases i - j,
            {
                if ps[j].instrument.same_as(&ps[i].instrument) {
                    assert((ps@[j as int]).instrument@ == ps@[i as int].instrument@);
                    return Err(SimulationError::InvalidConfig { field: "initial_positions", value: Dec::zero() });
                }
                j = j + 1;
            }
            if !p.quantity.is_positive() {
                return Err(SimulationError::InvalidConfig { field: "initial_position.quantity", value: p.quantity });
            }
            if !p.average_entry_price.is_positive() {
                return Err(SimulationError::InvalidConfig {
                    field: "initial_position.average_entry_price",
                    value: p.average_entry_price,
                });
            }
            i = i + 1;
        }
        Ok(())
    }
}

impl Default for SimulationConfig {
    /// A thousand units of synthetic cash and the defaults of `new`.
    fn default() -> (c: SimulationConfig)
        ensures
            c.spec_initial_cash()@ == (1000int, 0nat),
            c.spec_initial_positions() == Seq::<InitialPosition>::empty(),
            c.spec_fee_model() == FeeModel::NoFee,
            c.spec_slippage_model() == SlippageModel::NoSlippage,
            c.spec_fill_model() == FillModel::Full,
            c.spec_stop_loss_pct()@ == (15int, 2nat),
            c.spec_take_profit_pct()@ == (30int, 2nat),
    {
        SimulationConfig::new(Dec::new(1_000, 0))
    }
}

#[derive(Debug, PartialEq, Eq)]
pub struct MarketSnapshot {
    pub instrument: Instrument,
    pub timestamp: Timestamp,
    pub best_bid: Dec,
    pub best_ask: Dec,
    pub last_price: Option<Dec>,
}

impl Clone for MarketSnapshot {
    fn clone(&self) -> (r: MarketSnapshot)
        ensures
            r == *self,
    {
        MarketSnapshot {
            instrument: self.instrument.clone(),
            timestamp: self.timestamp,
            best_bid: self.best_bid,
            best_ask: self.best_ask,
            last_price: self.last_price,
        }
    }
}

/// The first refusal of a market snapshot.
pub open spec fn snapshot_fault(s: MarketSnapshot) -> Option<SimulationFault> {
    if !valid_symbol(s.instrument@) {
        Some(SimulationFault::Unsupported(s.instrument))
    } else if units(s.best_bid@) <= 0 || units(s.best_ask@) <= 0 {
        Some(SimulationFault::Error(SimulationError::InvalidMarketSnapshot("bid and ask must be positive")))
    } else if units(s.best_bid@) > units(s.best_ask@) {
        Some(SimulationFault::Error(SimulationError::InvalidMarketSnapshot("bid cannot exceed ask")))
    } else if s.last_price matches Some(p) && units(p@) <= 0 {
        Some(SimulationFault::Error(SimulationError::InvalidMarketSnapshot("last price must be positive")))
    } else {
        None
    }
}

pub open spec fn checked_as(fault: Option<SimulationFault>, r: Result<(), SimulationError>) -> bool {
    match fault {
        None => r is Ok,
        Some(f) => r matches Err(e) && fault_is(f, e),
    }
}

impl MarketSnapshot {
    pub fn new(instrument: Instrument, timestamp: Timestamp, best_bid: Dec, best_ask: Dec) -> (r: Result<MarketSnapshot, SimulationError>)
        ensures
            ({
                let s = MarketSnapshot { instrument, timestamp, best_bid, best_ask, last_price: None };
                match snapshot_fault(s) {
                    None => r == Ok::<MarketSnapshot, SimulationError>(s),
                    Some(f) => r matches Err(e) && fault_is(f, e),
                }
            }),
    {
        let snapshot = MarketSnapshot { instrument, timestamp, best_bid, best_ask, last_price: None };
        snapshot.validate()?;
        Ok(snapshot)
    }

    pub fn with_last_price(self, last_price: Dec) -> (r: Result<MarketSnapshot, SimulationError>)
        ensures
            ({
                let s = MarketSnapshot { last_price: Some(last_price), ..self };
                match snapshot_fault(s) {
                    None => r == Ok::<MarketSnapshot, SimulationError>(s),
                    Some(f) => r matches Err(e) && fault_is(f, e),
                }
            }),
    {
        let snapshot = MarketSnapshot { last_price: Some(last_price), ..self };
        snapshot.validate()?;
        Ok(snapshot)
    }

    pub fn validate(&self) -> (r: Result<(), SimulationError>)
        ensures
            checked_as(snapshot_fault(*self), r),
    {
        if self.instrument.validate().is_err() {
            return Err(SimulationError::UnsupportedInstrument(self.instrument.to_symbol_string()));
        }
        if !self.best_bid.is_positive() || !self.best_ask.is_positive() {
            return Err(SimulationError::InvalidMarketSnapshot("bid and ask must be positive"));
        }
        if self.best_ask.lt(&self.best_bid) {
            return Err(SimulationError::InvalidMarketSnapshot("bid cannot exceed ask"));
        }
        match self.last_price {
            Some(p) => {
                if !p.is_positive() {
                    return Err(SimulationError::InvalidMarketSnapshot("last price must be positive"));
                }
            },
            None => {},
        }
        Ok(())
    }
}

#[derive(Clone, Copy, Debug, PartialEq, Eq)]
pub enum OrderType {
    Market,
    Limit { price: Dec },
}

#[derive(Clone, Copy, Debug, PartialEq, Eq)]
pub enum OrderSize {
    Quantity(Dec),
    Notional(Dec),
}

#[derive(Debug, PartialEq, Eq)]
pub struct ExecutionRequest {
    pub instrument: Instrument,
    pub action: TradeAction,
    pub size: OrderSize,
    pub order_type: OrderType,
    pub submitted_at: Timestamp,
}

impl Clone for ExecutionRequest {
    fn clone(&self) -> (r: ExecutionRequest)
        ensures
            r == *self,
    {
        ExecutionRequest {
            instrument: self.instrument.clone(),
            action: self.action,
            size: self.size,
            order_type: self.order_type,
            submitted_at: self.submitted_at,
        }
    }
}

/// The first refusal of an execution request.
pub open spec fn request_fault(r: ExecutionRequest) -> Option<SimulationFault> {
    if !valid_symbol(r.instrument@) {
        Some(SimulationFault::Unsupported(r.instrument))
    } else if r.action == TradeAction::Hold {
        Some(SimulationFault::Error(SimulationError::HoldNotExecutable))
    } else if r.size matches OrderSize::Quantity(q) && units(q@) <= 0 {
        Some(SimulationFault::Error(SimulationError::InvalidQuantity(r.size->Quantity_0)))
    } else if r.size matches OrderSize::Notional(n) && units(n@) <= 0 {
        Some(SimulationFault::Error(SimulationError::InvalidNotional(r.size->Notional_0)))
    } else if r.order_type matches OrderType::Limit { price } && units(price@) <= 0 {
        Some(SimulationFault::Error(SimulationError::InvalidPrice(r.order_type->price)))
    } else {
        None
    }
}

impl ExecutionRequest {
    pub fn market(instrument: Instrument, action: TradeAction, size: OrderSize, submitted_at: Timestamp) -> (r: ExecutionRequest)
        ensures
            r == (ExecutionRequest { instrument, action, size, order_type: OrderType::Market, submitted_at }),
    {
        ExecutionRequest { instrument, action, size, order_type: OrderType::Market, submitted_at }
    }

    pub fn limit(instrument: Instrument, action: TradeAction, size: OrderSize, price: Dec, submitted_at: Timestamp) -> (r: ExecutionRequest)
        ensures
            r == (ExecutionRequest { instrument, action, size, order_type: OrderType::Limit { price }, submitted_at }),
    {
        ExecutionRequest { instrument, action, size, order_type: OrderType::Limit { price }, submitted_at }
    }

    pub fn validate(&self) -> (r: Result<(), SimulationError>)
        ensures
            checked_as(request_fault(*self), r),
    {
        if self.instrument.validate().is_err() {
            return Err(SimulationError::UnsupportedInstrument(self.instrument.to_symbol_string()));
        }
        if self.action == TradeAction::Hold {
            return Err(SimulationError::HoldNotExecutable);
        }
        match self.size {
            OrderSize::Quantity(q) => {
                if !q.is_positive() {
                    return Err(SimulationError::InvalidQuantity(q));
                }
            },
            OrderSize::Notional(n) => {
                if !n.is_positive() {
                    return Err(SimulationError::InvalidNotional(n));
                }
            },
        }
        match self.order_type {
            OrderType::Limit { price } => {
                if !price.is_positive() {
                    return Err(SimulationError::InvalidPrice(price));
                }
            },
            OrderType::Market => {},
        }
        Ok(())
    }
}

#[derive(Clone, Copy, Debug, PartialEq, Eq, Structural)]
pub enum OrderStatus {
    Pending,
    PartiallyFilled,
    Filled,
    Cancelled,
    Rejected,
}

#[derive(Clone, Copy, Debug, PartialEq, Eq, Structural)]
pub enum ExecutionReason {
    AgentOrder,
    HardStopLoss,
    HardTakeProfit,
}

#[derive(Debug, PartialEq, Eq)]
pub struct SimulationFill {
    pub fill_id: u64,
    pub order_id: u64,
    pub instrument: Instrument,
    pub action: TradeAction,
    pub quantity: Dec,
    pub reference_price: Dec,
    pub price: Dec,
    pub slippage: Dec,
    pub gross_notional: Dec,
    pub fee: Dec,
    pub timestamp: Timestamp,
    pub reason: ExecutionReason,
}

impl Clone for SimulationFill {
    fn clone(&self) -> (r: SimulationFill)
        ensures
            r == *self,
    {
        SimulationFill {
            fill_id: self.fill_id,
            order_id: self.order_id,
            instrument: self.instrument.clone(),
            action: self.action,
            quantity: self.quantity,
            reference_price: self.reference_price,
            price: self.price,
            slippage: self.slippage,
            gross_notional: self.gross_notional,
            fee: self.fee,
            timestamp: self.timestamp,
            reason: self.reason,
        }
    }
}

#[derive(Debug, PartialEq, Eq)]
pub struct ExecutionResult {
    pub order_id: u64,
    pub status: OrderStatus,
    pub fill: Option<SimulationFill>,
    pub remaining_quantity: Option<Dec>,
}

#[derive(Debug, PartialEq, Eq)]
pub struct SimulatedOrder {
    pub order_id: u64,
    pub request: ExecutionRequest,
    pub status: OrderStatus,
    pub requested_quantity: Option<Dec>,
    pub filled_quantity: Dec,
    pub remaining_quantity: Option<Dec>,
    pub fills: Vec<SimulationFill>,
}

/// The same order: equal fields and equal fills.
pub open spec fn order_same(a: SimulatedOrder, b: SimulatedOrder) -> bool {
    &&& a.order_id == b.order_id
    &&& a.request == b.request
    &&& a.status == b.status
    &&& a.requested_quantity == b.requested_quantity
    &&& a.filled_quantity == b.filled_quantity
    &&& a.remaining_quantity == b.remaining_quantity
    &&& a.fills@ == b.fills@
}

impl Clone for SimulatedOrder {
    fn clone(&self) -> (r: SimulatedOrder)
        ensures
            order_same(r, *self),
    {
        let mut fills: Vec<SimulationFill> = Vec::new();
        let mut i: usize = 0;
        while i < self.fills.len()
            invariant
                i <= self.fills@.len(),
                fills@ == self.fills@.subrange(0, i as int),
            decreases self.fills.len() - i,
        {
            fills.push(self.fills[i].clone());
            proof {
                assert(self.fills@.subrange(0, i + 1) =~= self.fills@.subrange(0, i as int).push(self.fills@[i as int]));
            }
            i = i + 1;
        }
        proof {
            assert(self.fills@.subrange(0, self.fills@.len() as int) =~= self.fills@);
        }
        SimulatedOrder {
            order_id: self.order_id,
            request: self.request.clone(),
            status: self.status,
            requested_quantity: self.requested_quantity,
            filled_quantity: self.filled_quantity,
            remaining_quantity: self.remaining_quantity,
            fills,
        }
    }
}

#[derive(Debug, PartialEq, Eq)]
pub struct PortfolioSnapshot {
    pub cash: Dec,
    pub positions: Vec<SimulatedPosition>,
    pub realized_pnl: Dec,
    pub fees_paid: Dec,
    pub equity: Dec,
}

/// The price a market order fills against: the ask for a buy, the bid for a sell.
pub open spec fn reference_of(action: TradeAction, s: MarketSnapshot) -> Dec {
    match action {
        TradeAction::Buy => s.best_ask,
        TradeAction::Sell => s.best_bid,
        TradeAction::Hold => Dec::spec_zero(),
    }
}

pub fn reference_price(action: TradeAction, snapshot: &MarketSnapshot) -> (d: Dec)
    ensures
        d == reference_of(action, *snapshot),
{
    match action {
        TradeAction::Buy => snapshot.best_ask,
        TradeAction::Sell => snapshot.best_bid,
        TradeAction::Hold => Dec::zero(),
    }
}

pub fn initial_quantity(size: &OrderSize) -> (q: Option<Dec>)
    ensures
        q == (match *size {
            OrderSize::Quantity(x) => Some(x),
            OrderSize::Notional(_) => None::<Dec>,
        }),
{
    match size {
        OrderSize::Quantity(q) => Some(*q),
        OrderSize::Notional(_) => None,
    }
}

} // verus!
