//! The simulation engine: orders, fills, protective exits and portfolio marks.

use vstd::prelude::*;

use crate::dec::{decimal_add, decimal_div, decimal_mul, decimal_sub, one_less_view, one_more_view, one_units, pow10, sub_fits, units, Dec, DecView, MAX_MANTISSA, MAX_SCALE};
use crate::domain::decisions::TradeAction;
use crate::domain::instrument::Instrument;
use super::account::{
    booked, buy_goes_through, find_position, position_of, positions_sorted, sell_goes_through, SimulatedAccount,
    SimulatedPosition,
};
use super::{
    adjusted_ok, checked_add, checked_div, checked_mul, checked_sub, fee_value, initial_quantity, one_view,
    order_same, reference_of, reference_price, request_fault, snapshot_fault, step_ok, checked_as, fault_is,
    ExecutionReason, ExecutionRequest, ExecutionResult, FillModel, MarketSnapshot, OrderSize, OrderStatus,
    OrderType, PortfolioSnapshot, SimulatedOrder, SimulationConfig, SimulationError, SimulationFill,
};

verus! {

/// Orders ascend strictly by order ID.
pub open spec fn orders_ascending(s: Seq<SimulatedOrder>) -> bool {
    forall|i: int, j: int| 0 <= i < j < s.len() ==> (#[trigger] s[i]).order_id < (#[trigger] s[j]).order_id
}

/// Snapshots are kept one per instrument.
pub open spec fn snapshots_distinct(s: Seq<MarketSnapshot>) -> bool {
    forall|i: int, j: int| 0 <= i < j < s.len() ==> (#[trigger] s[i]).instrument@ != (#[trigger] s[j]).instrument@
}

/// The latest snapshot seen for `sym`.
pub open spec fn snapshot_of(s: Seq<MarketSnapshot>, sym: Seq<char>) -> Option<MarketSnapshot>
    decreases s.len(),
{
    if s.len() == 0 {
        None
    } else if s.last().instrument@ == sym {
        Some(s.last())
    } else {
        snapshot_of(s.drop_last(), sym)
    }
}

pub proof fn lemma_snapshot_of_none(s: Seq<MarketSnapshot>, sym: Seq<char>)
    requires
        forall|i: int| 0 <= i < s.len() ==> (#[trigger] s[i]).instrument@ != sym,
    ensures
        snapshot_of(s, sym) is None,
    decreases s.len(),
{
    if s.len() > 0 {
        assert(s.last() == s[s.len() - 1]);
        lemma_snapshot_of_none(s.drop_last(), sym);
    }
}

pub proof fn lemma_snapshot_of_at(s: Seq<MarketSnapshot>, k: int)
    requires
        snapshots_distinct(s),
        0 <= k < s.len(),
    ensures
        snapshot_of(s, s[k].instrument@) == Some(s[k]),
    decreases s.len(),
{
    if k < s.len() - 1 {
        assert(s.last() == s[s.len() - 1]);
        let t = s.drop_last();
        assert(t[k] == s[k]);
        assert(snapshots_distinct(t)) by {
            assert forall|i: int, j: int| 0 <= i < j < t.len() implies (#[trigger] t[i]).instrument@ != (#[trigger] t[j]).instrument@ by {
                assert(t[i] == s[i] && t[j] == s[j]);
            }
        }
        lemma_snapshot_of_at(t, k);
    }
}

/// Records `snap` as the latest snapshot of its instrument.
fn store_snapshot(snapshots: &mut Vec<MarketSnapshot>, snap: MarketSnapshot)
    requires
        snapshots_distinct(old(snapshots)@),
    ensures
        snapshots_distinct(final(snapshots)@),
        snapshot_of(final(snapshots)@, snap.instrument@) == Some(snap),
{
    let mut i: usize = 0;
    while i < snapshots.len()
        invariant
            i <= snapshots@.len(),
            snapshots_distinct(snapshots@),
            forall|j: int| 0 <= j < i ==> (#[trigger] snapshots@[j]).instrument@ != snap.instrument@,
        decreases snapshots.len() - i,
    {
        if snapshots[i].instrument.same_as(&snap.instrument) {
            let ghost s = snapshots@;
            snapshots.set(i, snap);
            proof {
                let t = snapshots@;
                assert(t == s.update(i as int, snap));
                assert(snapshots_distinct(t)) by {
                    assert forall|a: int, b: int| 0 <= a < b < t.len() implies (#[trigger] t[a]).instrument@ != (#[trigger] t[b]).instrument@ by {
                        assert(s[a].instrument@ != s[b].instrument@);
                    }
                }
                lemma_snapshot_of_at(t, i as int);
            }
            return;
        }
        i = i + 1;
    }
    let ghost s = snapshots@;
    snapshots.push(snap);
    proof {
        let t = snapshots@;
        assert(t == s.push(snap));
        assert(snapshots_distinct(t)) by {
            assert forall|a: int, b: int| 0 <= a < b < t.len() implies (#[trigger] t[a]).instrument@ != (#[trigger] t[b]).instrument@ by {
                if b == s.len() {
                    assert(t[a] == s[a]);
                } else {
                    assert(t[a] == s[a] && t[b] == s[b]);
                }
            }
        }
        lemma_snapshot_of_at(t, s.len() as int);
    }
}

fn find_snapshot(snapshots: &Vec<MarketSnapshot>, instrument: &Instrument) -> (k: Option<usize>)
    requires
        snapshots_distinct(snapshots@),
    ensures
        k matches Some(i) ==> i < snapshots@.len() && snapshot_of(snapshots@, instrument@) == Some(snapshots@[i as int]),
        k is None ==> snapshot_of(snapshots@, instrument@) is None,
{
    let mut i: usize = 0;
    while i < snapshots.len()
        invariant
            i <= snapshots@.len(),
            snapshots_distinct(snapshots@),
            forall|j: int| 0 <= j < i ==> (#[trigger] snapshots@[j]).instrument@ != instrument@,
        decreases snapshots.len() - i,
    {
        if snapshots[i].instrument.same_as(instrument) {
            proof {
                lemma_snapshot_of_at(snapshots@, i as int);
            }
            return Some(i);
        }
        i = i + 1;
    }
    proof {
        lemma_snapshot_of_none(snapshots@, instrument@);
    }
    None
}

/// `1 - stop`: written exactly at the stop's scale for a stop between zero
/// and one, else as `Decimal` subtracts.
/// `1 + take`: written exactly at the take's scale for a take between zero
/// and one, else as `Decimal` adds.
pub open spec fn take_factor(take: DecView) -> Option<DecView> {
    if 0 <= units(take) <= one_units() {
        Some(one_more_view(take))
    } else {
        decimal_add(one_view(), take)
    }
}

pub open spec fn stop_factor(stop: DecView) -> Option<DecView> {
    if 0 <= units(stop) <= one_units() {
        Some(one_less_view(stop))
    } else {
        decimal_sub(one_view(), stop)
    }
}

/// The hard exit a snapshot triggers for a position, where the thresholds
/// can be computed: a stop-loss at or below `entry * (1 - stop)`, else a
/// take-profit at or above `entry * (1 + take)`.
pub open spec fn protective_of(stop: Dec, take: Dec, p: SimulatedPosition, bid: Dec) -> Option<Option<ExecutionReason>> {
    let stop_price = decimal_mul(p.average_entry_price@, stop_factor(stop@)->0);
    let take_price = decimal_mul(p.average_entry_price@, take_factor(take@)->0);
    if stop_factor(stop@) is None || stop_price is None || take_factor(take@) is None
        || take_price is None {
        None
    } else if units(bid@) <= units(stop_price->0) {
        Some(Some(ExecutionReason::HardStopLoss))
    } else if units(bid@) >= units(take_price->0) {
        Some(Some(ExecutionReason::HardTakeProfit))
    } else {
        Some(None)
    }
}

/// Whether a request is marketable against a snapshot once slippage is
/// applied: a market order always is; a limit order when both the reference
/// and the slipped price are at or better than its limit.
pub open spec fn marketable(slip: super::SlippageModel, req: ExecutionRequest, snap: MarketSnapshot) -> Option<bool> {
    match req.order_type {
        OrderType::Market => Some(true),
        OrderType::Limit { price: limit } => {
            let reference = reference_of(req.action, snap)@;
            match super::adjusted_view(slip, req.action, reference) {
                None => None,
                Some(eff) => Some(match req.action {
                    TradeAction::Buy => units(reference) <= units(limit@) && units(eff) <= units(limit@),
                    TradeAction::Sell => units(reference) >= units(limit@) && units(eff) >= units(limit@),
                    TradeAction::Hold => false,
                }),
            }
        },
    }
}

/// What a full fill of `quantity` at `price` needs: the cash for a buy with
/// its fee, the inventory for a sell.
pub open spec fn fill_fault(a: SimulatedAccount, fee: super::FeeModel, action: TradeAction, sym: Seq<char>, quantity: Dec, price: Dec) -> Option<SimulationError> {
    match action {
        TradeAction::Buy => {
            let gross = decimal_mul(quantity@, price@);
            let total = super::add_o(gross, match gross { Some(g) => fee_value(fee, g), None => None });
            if total is None {
                Some(SimulationError::ArithmeticFailure("buy affordability"))
            } else if units(total->0) > units(a.cash@) {
                Some(SimulationError::InsufficientFunds { required: Dec::spec_zero(), available: a.cash })
            } else {
                None
            }
        },
        TradeAction::Sell => {
            let available = match position_of(a.positions@, sym) {
                Some(p) => p.quantity,
                None => Dec::spec_zero(),
            };
            if units(quantity@) > units(available@) {
                Some(SimulationError::InsufficientInventory { requested: quantity, available })
            } else {
                None
            }
        },
        TradeAction::Hold => Some(SimulationError::HoldNotExecutable),
    }
}

/// The price at which `order` fills against `snap`: the side's reference
/// price with slippage applied, where that can be computed.
pub open spec fn order_fill_price(slip: super::SlippageModel, order: SimulatedOrder, snap: MarketSnapshot) -> Option<DecView> {
    super::adjusted_view(slip, order.request.action, reference_of(order.request.action, snap)@)
}

/// Whether `order` takes a fill at `price`: a market order always, a limit
/// order when the price is at or better than its limit.
pub open spec fn admits_price(order: SimulatedOrder, price: DecView) -> bool {
    match order.request.order_type {
        OrderType::Market => true,
        OrderType::Limit { price: limit } => match order.request.action {
            TradeAction::Buy => units(price) <= units(limit@),
            TradeAction::Sell => units(limit@) <= units(price),
            TradeAction::Hold => false,
        },
    }
}

/// What is still to fill of `order` at `price`: the recorded remainder, or
/// the requested quantity, a notional size being converted at `price` the
/// first time; `None` where that conversion cannot be computed.
pub open spec fn remaining_at(order: SimulatedOrder, price: DecView) -> Option<DecView> {
    match order.requested_quantity {
        Some(q) => Some(
            match order.remaining_quantity {
                Some(rq) => rq@,
                None => q@,
            },
        ),
        None => match order.request.size {
            OrderSize::Quantity(q) => Some(q@),
            OrderSize::Notional(n) => decimal_div(n@, price),
        },
    }
}

/// Whether a full fill of `quantity` at `price` is out of reach: a buy the
/// cash cannot pay for with its fee (or whose cost cannot be computed), a
/// sell of more than is held.
pub open spec fn fill_blocked(a: SimulatedAccount, fee: super::FeeModel, action: TradeAction, sym: Seq<char>, quantity: DecView, price: DecView) -> bool {
    match action {
        TradeAction::Buy => {
            let gross = decimal_mul(quantity, price);
            let total = super::add_o(gross, match gross { Some(g) => fee_value(fee, g), None => None });
            total is None || units(total->0) > units(a.cash@)
        },
        TradeAction::Sell => {
            let available = match position_of(a.positions@, sym) {
                Some(p) => p.quantity,
                None => Dec::spec_zero(),
            };
            units(quantity) > units(available@)
        },
        TradeAction::Hold => true,
    }
}

/// The exec-level shortfall check and `fill_blocked` agree.
proof fn lemma_fill_fault_blocked(a: SimulatedAccount, fee: super::FeeModel, action: TradeAction, sym: Seq<char>, quantity: Dec, price: Dec)
    ensures
        fill_fault(a, fee, action, sym, quantity, price) is Some <==> fill_blocked(a, fee, action, sym, quantity@, price@),
{
}

/// Whether the account can book `f`: a buy it can pay for, a sell of no
/// more than the position holds, each with every step computable.
pub open spec fn books_fill(a: SimulatedAccount, f: SimulationFill) -> bool {
    match f.action {
        TradeAction::Buy => buy_goes_through(a, f),
        TradeAction::Sell => match position_of(a.positions@, f.instrument@) {
            Some(e) => units(f.quantity@) <= units(e.quantity@) && sell_goes_through(a, e, f),
            None => false,
        },
        TradeAction::Hold => false,
    }
}

/// A fill with the given side, instrument, quantity, gross notional and fee.
pub open spec fn fill_carries(f: SimulationFill, action: TradeAction, sym: Seq<char>, quantity: DecView, gross: DecView, fee: DecView) -> bool {
    &&& f.action == action
    &&& f.instrument@ == sym
    &&& f.quantity@ == quantity
    &&& f.gross_notional@ == gross
    &&& f.fee@ == fee
}

/// Whether the account can book a fill with the given side, instrument,
/// quantity, gross notional and fee.
pub open spec fn can_book(a: SimulatedAccount, action: TradeAction, sym: Seq<char>, quantity: DecView, gross: DecView, fee: DecView) -> bool {
    exists|f: SimulationFill| #[trigger] fill_carries(f, action, sym, quantity, gross, fee) && books_fill(a, f)
}

/// Whether a fill can be booked depends only on what it carries.
proof fn lemma_books_by_carried(a: SimulatedAccount, f: SimulationFill, g: SimulationFill)
    requires
        fill_carries(f, g.action, g.instrument@, g.quantity@, g.gross_notional@, g.fee@),
    ensures
        books_fill(a, f) == books_fill(a, g),
{
}

/// The quantity a fill model takes of `remaining`: `Some(None)` for no
/// fill, `None` where a partial share cannot be computed.
pub open spec fn model_quantity(m: FillModel, remaining: DecView) -> Option<Option<DecView>> {
    match m {
        FillModel::Full => Some(Some(remaining)),
        FillModel::Partial(ratio) => match decimal_mul(remaining, ratio@) {
            Some(q) => Some(Some(q)),
            None => None,
        },
        FillModel::NoFill => Some(None),
    }
}

/// What filling `order` answers, stage by stage: the price, the limit, the
/// quantity left, what the account allows and what the fill model takes;
/// a positive fill quantity then succeeds exactly when its notional and fee
/// can be computed, a fill ID is left, the account can book it and the
/// order's filled and remaining quantities can be updated.
pub open spec fn fill_answer(
    old_engine: SimulationEngine,
    new_engine: SimulationEngine,
    old_order: SimulatedOrder,
    new_order: SimulatedOrder,
    snap: MarketSnapshot,
    fill_model: FillModel,
    r: Result<ExecutionResult, SimulationError>,
) -> bool {
    let cfg = old_engine.spec_config();
    let same_engine = new_engine == old_engine;
    match order_fill_price(cfg.spec_slippage_model(), old_order, snap) {
        None => r is Err && same_engine && new_order == old_order,
        Some(p) => if units(p) <= 0 {
            (r matches Err(SimulationError::InvalidPrice(d)) && d@ == p) && same_engine && new_order == old_order
        } else if !admits_price(old_order, p) {
            r == Ok::<ExecutionResult, SimulationError>(
                ExecutionResult {
                    order_id: old_order.order_id,
                    status: old_order.status,
                    fill: None,
                    remaining_quantity: old_order.remaining_quantity,
                },
            ) && same_engine && new_order == old_order
        } else {
            match remaining_at(old_order, p) {
                None => (r matches Err(SimulationError::ArithmeticFailure(_))) && same_engine,
                Some(q) => if units(q) <= 0 {
                    r == Ok::<ExecutionResult, SimulationError>(
                        ExecutionResult {
                            order_id: old_order.order_id,
                            status: OrderStatus::Filled,
                            fill: None,
                            remaining_quantity: Some(Dec::spec_zero()),
                        },
                    ) && same_engine
                } else if fill_blocked(
                    old_engine.spec_account(),
                    cfg.spec_fee_model(),
                    old_order.request.action,
                    old_order.request.instrument@,
                    q,
                    p,
                ) {
                    r is Err && same_engine
                } else {
                    match model_quantity(fill_model, q) {
                        None => (r matches Err(SimulationError::ArithmeticFailure(_))) && same_engine,
                        Some(None) => {
                            &&& r matches Ok(res)
                            &&& res.order_id == old_order.order_id
                            &&& res.status == old_order.status
                            &&& res.fill is None
                            &&& res.remaining_quantity matches Some(d)
                            &&& d@ == q
                            &&& same_engine
                        },
                        Some(Some(fq)) => if units(fq) <= 0 {
                            (r matches Err(SimulationError::InvalidQuantity(d)) && d@ == fq) && same_engine
                        } else {
                            let gross = decimal_mul(fq, p);
                            let fee = match gross {
                                Some(g) => fee_value(cfg.spec_fee_model(), g),
                                None => None,
                            };
                            r is Ok <==> {
                                &&& gross is Some
                                &&& fee is Some
                                &&& old_engine.spec_next_fill_id() < u64::MAX
                                &&& can_book(
                                    old_engine.spec_account(),
                                    old_order.request.action,
                                    old_order.request.instrument@,
                                    fq,
                                    gross->0,
                                    fee->0,
                                )
                                &&& decimal_add(old_order.filled_quantity@, fq) is Some
                                &&& decimal_sub(q, fq) is Some
                            }
                        },
                    }
                }
            }
        }
    }
}

/// A fill of an order against a snapshot, with the facts every fill carries.
pub open spec fn fill_fits(f: SimulationFill, order: SimulatedOrder, snap: MarketSnapshot, reason: ExecutionReason, fee: super::FeeModel) -> bool {
    &&& f.order_id == order.order_id
    &&& f.instrument@ == order.request.instrument@
    &&& f.action == order.request.action
    &&& f.reason == reason
    &&& f.timestamp == snap.timestamp
    &&& f.reference_price == reference_of(order.request.action, snap)
    &&& units(f.price@) > 0
    &&& units(f.quantity@) > 0
    &&& Some(f.gross_notional@) == decimal_mul(f.quantity@, f.price@)
    &&& Some(f.fee@) == fee_value(fee, f.gross_notional@)
    &&& (order.request.order_type matches OrderType::Limit { price: limit } ==> (match order.request.action {
        TradeAction::Buy => units(f.price@) <= units(limit@),
        TradeAction::Sell => units(f.price@) >= units(limit@),
        TradeAction::Hold => false,
    }))
}

/// The synthetic exchange: configuration, account, orders in ID order, the
/// latest snapshot per instrument and the next IDs to hand out.
pub struct SimulationEngine {
    config: SimulationConfig,
    account: SimulatedAccount,
    orders: Vec<SimulatedOrder>,
    latest_snapshots: Vec<MarketSnapshot>,
    next_order_id: u64,
    next_fill_id: u64,
}

impl SimulationEngine {
    pub closed spec fn spec_config(&self) -> SimulationConfig {
        self.config
    }

    pub closed spec fn spec_account(&self) -> SimulatedAccount {
        self.account
    }

    pub closed spec fn spec_orders(&self) -> Seq<SimulatedOrder> {
        self.orders@
    }

    pub closed spec fn spec_snapshots(&self) -> Seq<MarketSnapshot> {
        self.latest_snapshots@
    }

    pub closed spec fn spec_next_order_id(&self) -> u64 {
        self.next_order_id
    }

    pub closed spec fn spec_next_fill_id(&self) -> u64 {
        self.next_fill_id
    }

    /// Positions in symbol order, orders in ID order below the next ID, and
    /// one latest snapshot per instrument.
    pub open spec fn wf(&self) -> bool {
        &&& self.spec_account().wf()
        &&& orders_ascending(self.spec_orders())
        &&& forall|i: int| 0 <= i < self.spec_orders().len() ==> (#[trigger] self.spec_orders()[i]).order_id < self.spec_next_order_id()
        &&& snapshots_distinct(self.spec_snapshots())
    }

    pub fn new(config: SimulationConfig) -> (r: Result<SimulationEngine, SimulationError>)
        ensures
            config.fault() matches Some(f) ==> r matches Err(e) && fault_is(f, e),
            config.fault() is None ==> (r matches Ok(eng) && {
                &&& eng.wf()
                &&& eng.spec_config() == config
                &&& eng.spec_account().cash == config.spec_initial_cash()
                &&& eng.spec_account().realized_pnl@ == (0int, 0nat)
                &&& eng.spec_account().fees_paid@ == (0int, 0nat)
                &&& forall|sym: Seq<char>| #[trigger] position_of(eng.spec_account().positions@, sym)
                    == super::account::initial_position_of(config.spec_initial_positions(), sym)
                &&& eng.spec_orders().len() == 0
                &&& eng.spec_snapshots().len() == 0
                &&& eng.spec_next_order_id() == 1
                &&& eng.spec_next_fill_id() == 1
            }),
    {
        config.validate()?;
        let account = SimulatedAccount::from_config(&config);
        Ok(SimulationEngine {
            config,
            account,
            orders: Vec::new(),
            latest_snapshots: Vec::new(),
            next_order_id: 1,
            next_fill_id: 1,
        })
    }

    pub fn cash(&self) -> (d: Dec)
        ensures
            d == self.spec_account().cash,
    {
        self.account.cash
    }

    pub fn realized_pnl(&self) -> (d: Dec)
        ensures
            d == self.spec_account().realized_pnl,
    {
        self.account.realized_pnl
    }

    pub fn fees_paid(&self) -> (d: Dec)
        ensures
            d == self.spec_account().fees_paid,
    {
        self.account.fees_paid
    }

    pub fn position(&self, instrument: &Instrument) -> (r: Option<&SimulatedPosition>)
        requires
            self.wf(),
        ensures
            r matches Some(p) ==> position_of(self.spec_account().positions@, instrument@) == Some(*p),
            r is None ==> position_of(self.spec_account().positions@, instrument@) is None,
    {
        match find_position(&self.account.positions, instrument) {
            Some(k) => Some(&self.account.positions[k]),
            None => None,
        }
    }

    /// The open positions in symbol order.
    pub fn positions(&self) -> (r: Vec<SimulatedPosition>)
        ensures
            r@ == self.spec_account().positions@,
    {
        let ps = &self.account.positions;
        let mut r: Vec<SimulatedPosition> = Vec::new();
        let mut i: usize = 0;
        while i < ps.len()
            invariant
                i <= ps@.len(),
                r@ == ps@.subrange(0, i as int),
            decreases ps.len() - i,
        {
            r.push(ps[i].clone());
            proof {
                assert(ps@.subrange(0, i + 1) =~= ps@.subrange(0, i as int).push(ps@[i as int]));
            }
            i = i + 1;
        }
        proof {
            assert(ps@.subrange(0, ps@.len() as int) =~= ps@);
        }
        r
    }

    pub fn order(&self, order_id: u64) -> (r: Option<&SimulatedOrder>)
        ensures
            r matches Some(o) ==> exists|i: int| 0 <= i < self.spec_orders().len() && self.spec_orders()[i] == *o && o.order_id == order_id,
            r is None ==> forall|i: int| 0 <= i < self.spec_orders().len() ==> (#[trigger] self.spec_orders()[i]).order_id != order_id,
    {
        let mut i: usize = 0;
        while i < self.orders.len()
            invariant
                i <= self.orders@.len(),
                forall|j: int| 0 <= j < i ==> (#[trigger] self.orders@[j]).order_id != order_id,
            decreases self.orders.len() - i,
        {
            if self.orders[i].order_id == order_id {
                return Some(&self.orders[i]);
            }
            i = i + 1;
        }
        None
    }

    /// Orders still pending or partially filled, in ID order.
    pub fn pending_orders(&self) -> (r: Vec<SimulatedOrder>)
        ensures
            r@.len() == self.spec_orders().filter(|o: SimulatedOrder| is_open(o.status)).len(),
            forall|i: int| 0 <= i < r@.len() ==> order_same(#[trigger] r@[i], self.spec_orders().filter(|o: SimulatedOrder| is_open(o.status))[i]),
    {
        let ghost pred = |o: SimulatedOrder| is_open(o.status);
        let mut r: Vec<SimulatedOrder> = Vec::new();
        let mut i: usize = 0;
        while i < self.orders.len()
            invariant
                i <= self.orders@.len(),
                pred == (|o: SimulatedOrder| is_open(o.status)),
                r@.len() == self.orders@.subrange(0, i as int).filter(pred).len(),
                forall|k: int| 0 <= k < r@.len() ==> order_same(#[trigger] r@[k], self.orders@.subrange(0, i as int).filter(pred)[k]),
            decreases self.orders.len() - i,
        {
            proof {
                let s = self.orders@.subrange(0, i + 1);
                assert(s.drop_last() =~= self.orders@.subrange(0, i as int));
                reveal(Seq::filter);
                assert(s.filter(pred) == if pred(s.last()) { s.drop_last().filter(pred).push(s.last()) } else { s.drop_last().filter(pred) });
            }
            let st = self.orders[i].status;
            if st == OrderStatus::Pending || st == OrderStatus::PartiallyFilled {
                r.push(self.orders[i].clone());
            }
            i = i + 1;
        }
        proof {
            assert(self.orders@.subrange(0, self.orders@.len() as int) =~= self.orders@);
        }
        r
    }

    fn allocate_order_id(&mut self) -> (r: Result<u64, SimulationError>)
        requires
            old(self).wf(),
        ensures
            final(self).wf(),
            final(self).spec_config() == old(self).spec_config(),
            final(self).spec_account() == old(self).spec_account(),
            final(self).spec_orders() == old(self).spec_orders(),
            final(self).spec_snapshots() == old(self).spec_snapshots(),
            final(self).spec_next_fill_id() == old(self).spec_next_fill_id(),
            old(self).spec_next_order_id() < u64::MAX ==> r == Ok::<u64, SimulationError>(old(self).spec_next_order_id())
                && final(self).spec_next_order_id() == old(self).spec_next_order_id() + 1,
            old(self).spec_next_order_id() == u64::MAX ==> r == Err::<u64, SimulationError>(SimulationError::ArithmeticFailure("order ID"))
                && final(self).spec_next_order_id() == old(self).spec_next_order_id(),
    {
        let order_id = self.next_order_id;
        if self.next_order_id == u64::MAX {
            return Err(SimulationError::ArithmeticFailure("order ID"));
        }
        self.next_order_id = self.next_order_id + 1;
        Ok(order_id)
    }

    fn allocate_fill_id(&mut self) -> (r: Result<u64, SimulationError>)
        requires
            old(self).wf(),
        ensures
            final(self).wf(),
            final(self).spec_config() == old(self).spec_config(),
            final(self).spec_account() == old(self).spec_account(),
            final(self).spec_orders() == old(self).spec_orders(),
            final(self).spec_snapshots() == old(self).spec_snapshots(),
            final(self).spec_next_order_id() == old(self).spec_next_order_id(),
            old(self).spec_next_fill_id() < u64::MAX ==> r == Ok::<u64, SimulationError>(old(self).spec_next_fill_id())
                && final(self).spec_next_fill_id() == old(self).spec_next_fill_id() + 1,
            old(self).spec_next_fill_id() == u64::MAX ==> r == Err::<u64, SimulationError>(SimulationError::ArithmeticFailure("fill ID"))
                && final(self).spec_next_fill_id() == old(self).spec_next_fill_id(),
    {
        let fill_id = self.next_fill_id;
        if self.next_fill_id == u64::MAX {
            return Err(SimulationError::ArithmeticFailure("fill ID"));
        }
        self.next_fill_id = self.next_fill_id + 1;
        Ok(fill_id)
    }

    fn limit_is_fillable(&self, request: &ExecutionRequest, snapshot: &MarketSnapshot) -> (r: Result<bool, SimulationError>)
        ensures
            match marketable(self.spec_config().spec_slippage_model(), *request, *snapshot) {
                Some(b) => r == Ok::<bool, SimulationError>(b),
                None => r is Err,
            },
    {
        let limit = match request.order_type {
            OrderType::Limit { price } => price,
            OrderType::Market => return Ok(true),
        };
        let reference = reference_price(request.action, snapshot);
        let (effective, _) = self.config.slippage_model().adjusted_price(request.action, reference)?;
        Ok(match request.action {
            TradeAction::Buy => reference.le(&limit) && effective.le(&limit),
            TradeAction::Sell => limit.le(&reference) && limit.le(&effective),
            TradeAction::Hold => false,
        })
    }

    fn ensure_full_fill_possible(&self, action: TradeAction, instrument: &Instrument, quantity: Dec, price: Dec) -> (r: Result<(), SimulationError>)
        requires
            self.wf(),
        ensures
            match fill_fault(self.spec_account(), self.spec_config().spec_fee_model(), action, instrument@, quantity, price) {
                None => r is Ok,
                Some(SimulationError::InsufficientFunds { .. }) => r matches Err(SimulationError::InsufficientFunds { available, .. })
                    && available == self.spec_account().cash,
                Some(SimulationError::ArithmeticFailure(_)) => r matches Err(SimulationError::ArithmeticFailure(_)),
                Some(e) => r == Err::<(), SimulationError>(e),
            },
    {
        match action {
            TradeAction::Buy => {
                let gross = checked_mul(quantity, price, "buy affordability")?;
                let fee = self.config.fee_model().fee(gross)?;
                let total = checked_add(gross, fee, "buy affordability")?;
                if self.account.cash.lt(&total) {
                    return Err(SimulationError::InsufficientFunds { required: total, available: self.account.cash });
                }
                Ok(())
            },
            TradeAction::Sell => {
                let available = match find_position(&self.account.positions, instrument) {
                    Some(k) => self.account.positions[k].quantity,
                    None => Dec::zero(),
                };
                if available.lt(&quantity) {
                    return Err(SimulationError::InsufficientInventory { requested: quantity, available });
                }
                Ok(())
            },
            TradeAction::Hold => Err(SimulationError::HoldNotExecutable),
        }
    }

    /// The hard exit that a snapshot triggers on the position in its
    /// instrument, if any.
    fn protective_reason(&self, snapshot: &MarketSnapshot) -> (r: Result<Option<ExecutionReason>, SimulationError>)
        requires
            self.wf(),
        ensures
            match position_of(self.spec_account().positions@, snapshot.instrument@) {
                None => r == Ok::<Option<ExecutionReason>, SimulationError>(None),
                Some(p) => match protective_of(self.spec_config().spec_stop_loss_pct(), self.spec_config().spec_take_profit_pct(), p, snapshot.best_bid) {
                    Some(x) => r == Ok::<Option<ExecutionReason>, SimulationError>(x),
                    None => r matches Err(SimulationError::ArithmeticFailure(_)),
                },
            },
            match position_of(self.spec_account().positions@, snapshot.instrument@) {
                None => true,
                Some(p) => {
                    let e = p.average_entry_price@;
                    let st = self.spec_config().spec_stop_loss_pct()@;
                    let tk = self.spec_config().spec_take_profit_pct()@;
                    let bid = units(snapshot.best_bid@) * one_units();
                    let stop_exact = 0 <= units(st) <= one_units() && e.1 + st.1 <= MAX_SCALE && -(MAX_MANTISSA as int) <= e.0
                        * (pow10(st.1) - st.0) <= MAX_MANTISSA as int;
                    let take_exact = 0 <= units(tk) <= one_units() && e.1 + tk.1 <= MAX_SCALE && -(MAX_MANTISSA as int) <= e.0
                        * (pow10(tk.1) + tk.0) <= MAX_MANTISSA as int;
                    &&& stop_exact && (take_factor(tk) matches Some(tf) && decimal_mul(e, tf) is Some) ==> (r == Ok::<
                        Option<ExecutionReason>,
                        SimulationError,
                    >(Some(ExecutionReason::HardStopLoss)) <==> bid <= units(e) * (one_units() - units(st)))
                    &&& stop_exact && take_exact && bid > units(e) * (one_units() - units(st)) ==> (r == Ok::<
                        Option<ExecutionReason>,
                        SimulationError,
                    >(Some(ExecutionReason::HardTakeProfit)) <==> bid >= units(e) * (one_units() + units(tk)))
                },
            },
    {
        let k = match find_position(&self.account.positions, &snapshot.instrument) {
            Some(k) => k,
            None => return Ok(None),
        };
        let entry = self.account.positions[k].average_entry_price;
        let stop = self.config.stop_loss_pct();
        let stop_factor = if !stop.is_negative() && stop.le(&Dec::one()) {
            stop.one_less()
        } else {
            checked_sub(Dec::one(), stop, "stop-loss factor")?
        };
        let stop_price = checked_mul(entry, stop_factor, "stop-loss threshold")?;
        let take = self.config.take_profit_pct();
        let profit_factor = if !take.is_negative() && take.le(&Dec::one()) {
            take.one_more()
        } else {
            checked_add(Dec::one(), take, "take-profit factor")?
        };
        let take_profit_price = checked_mul(entry, profit_factor, "take-profit threshold")?;
        proof {
            let tk = take@;
            if 0 <= units(tk) <= one_units() && entry@.1 + tk.1 <= MAX_SCALE && -(MAX_MANTISSA as int) <= entry@.0 * (pow10(tk.1) + tk.0)
                <= MAX_MANTISSA as int {
                assert(crate::dec::mul_fits(entry@, profit_factor@));
                let a = units(snapshot.best_bid@);
                let b = units(take_profit_price@);
                let o = one_units();
                crate::dec::lemma_pow10_positive(MAX_SCALE as nat);
                assert(b * o == units(entry@) * (o + units(tk)));
                assert(b <= a <==> b * o <= a * o) by (nonlinear_arith)
                    requires
                        o > 0,
                ;
            }
            let st = stop@;
            if 0 <= units(st) <= one_units() && entry@.1 + st.1 <= MAX_SCALE && -(MAX_MANTISSA as int) <= entry@.0 * (pow10(st.1) - st.0)
                <= MAX_MANTISSA as int {
                assert(crate::dec::mul_fits(entry@, stop_factor@));
                let a = units(snapshot.best_bid@);
                let b = units(stop_price@);
                let o = one_units();
                crate::dec::lemma_pow10_positive(MAX_SCALE as nat);
                assert(b * o == units(entry@) * (o - units(st)));
                assert(a <= b <==> a * o <= b * o) by (nonlinear_arith)
                    requires
                        o > 0,
                ;
            }
        }
        if snapshot.best_bid.le(&stop_price) {
            Ok(Some(ExecutionReason::HardStopLoss))
        } else if take_profit_price.le(&snapshot.best_bid) {
            Ok(Some(ExecutionReason::HardTakeProfit))
        } else {
            Ok(None)
        }
    }

    /// Tries to fill what remains of `order` against `snapshot`. The fill, if
    /// any, is booked against the account and appended to the order.
    fn fill_order(
        &mut self,
        order: &mut SimulatedOrder,
        snapshot: &MarketSnapshot,
        reason: ExecutionReason,
        fill_model: FillModel,
    ) -> (r: Result<ExecutionResult, SimulationError>)
        requires
            old(self).wf(),
        ensures
            final(self).wf(),
            final(self).spec_config() == old(self).spec_config(),
            final(self).spec_orders() == old(self).spec_orders(),
            final(self).spec_snapshots() == old(self).spec_snapshots(),
            final(self).spec_next_order_id() == old(self).spec_next_order_id(),
            final(self).spec_next_fill_id() >= old(self).spec_next_fill_id(),
            final(order).order_id == old(order).order_id,
            final(order).request == old(order).request,
            r matches Ok(res) ==> res.order_id == old(order).order_id && res.status == final(order).status,
            (r is Ok && fill_model == FillModel::Full && old(order).request.order_type == OrderType::Market
                && old(order).requested_quantity is Some && old(order).remaining_quantity is Some
                && units(old(order).remaining_quantity->0@) > 0)
                ==> r->Ok_0.fill is Some,
            r is Ok && r->Ok_0.fill is None ==> final(self).spec_account() == old(self).spec_account()
                && final(order).fills@ == old(order).fills@,
            r is Ok && r->Ok_0.fill is Some ==> {
                let res = r->Ok_0;
                let f = res.fill->0;
                &&& fill_fits(f, *old(order), *snapshot, reason, old(self).spec_config().spec_fee_model())
                &&& booked(old(self).spec_account(), f, final(self).spec_account())
                &&& f.fill_id == old(self).spec_next_fill_id()
                &&& final(order).fills@ == old(order).fills@.push(f)
                &&& res.remaining_quantity == final(order).remaining_quantity
                &&& (fill_model == FillModel::Full && old(order).requested_quantity is Some
                    && old(order).remaining_quantity is Some) ==> f.quantity
                    == old(order).remaining_quantity->0
                &&& (final(order).remaining_quantity matches Some(q) && (units(q@) == 0 <==> final(order).status
                    == OrderStatus::Filled))
            },
            fill_answer(*old(self), *final(self), *old(order), *final(order), *snapshot, fill_model, r),
    {
        let action = order.request.action;
        let reference = reference_price(action, snapshot);
        let (price, slippage) = self.config.slippage_model().adjusted_price(action, reference)?;
        if !price.is_positive() {
            return Err(SimulationError::InvalidPrice(price));
        }
        match order.request.order_type {
            OrderType::Limit { price: limit } => {
                let fillable = match action {
                    TradeAction::Buy => price.le(&limit),
                    TradeAction::Sell => limit.le(&price),
                    TradeAction::Hold => false,
                };
                if !fillable {
                    return Ok(ExecutionResult {
                        order_id: order.order_id,
                        status: order.status,
                        fill: None,
                        remaining_quantity: order.remaining_quantity,
                    });
                }
            },
            OrderType::Market => {},
        }
        let requested_quantity = match order.requested_quantity {
            Some(q) => q,
            None => {
                let q = match order.request.size {
                    OrderSize::Quantity(q) => q,
                    OrderSize::Notional(n) => checked_div(n, price, "notional quantity")?,
                };
                order.requested_quantity = Some(q);
                order.remaining_quantity = Some(q);
                q
            },
        };
        let remaining = match order.remaining_quantity {
            Some(q) => q,
            None => requested_quantity,
        };
        if !remaining.is_positive() {
            order.status = OrderStatus::Filled;
            return Ok(ExecutionResult {
                order_id: order.order_id,
                status: order.status,
                fill: None,
                remaining_quantity: Some(Dec::zero()),
            });
        }
        proof {
            lemma_fill_fault_blocked(
                self.spec_account(),
                self.spec_config().spec_fee_model(),
                action,
                order.request.instrument@,
                remaining,
                price,
            );
        }
        self.ensure_full_fill_possible(action, &order.request.instrument, remaining, price)?;
        let fill_quantity = match fill_model.quantity(remaining)? {
            Some(q) => q,
            None => {
                return Ok(ExecutionResult {
                    order_id: order.order_id,
                    status: order.status,
                    fill: None,
                    remaining_quantity: Some(remaining),
                });
            },
        };
        if !fill_quantity.is_positive() {
            return Err(SimulationError::InvalidQuantity(fill_quantity));
        }
        let gross_notional = checked_mul(fill_quantity, price, "gross notional")?;
        let fee = self.config.fee_model().fee(gross_notional)?;
        let fill_id = self.allocate_fill_id()?;
        let fill = SimulationFill {
            fill_id,
            order_id: order.order_id,
            instrument: order.request.instrument.clone(),
            action,
            quantity: fill_quantity,
            reference_price: reference,
            price,
            slippage,
            gross_notional,
            fee,
            timestamp: snapshot.timestamp,
            reason,
        };
        let ghost account_before = self.spec_account();
        match self.account.apply_fill(&fill) {
            Ok(()) => {},
            Err(e) => {
                proof {
                    assert forall|f: SimulationFill|
                        #[trigger] fill_carries(f, fill.action, fill.instrument@, fill.quantity@, fill.gross_notional@, fill.fee@)
                        implies !books_fill(account_before, f) by {
                        lemma_books_by_carried(account_before, f, fill);
                    }
                }
                return Err(e);
            },
        }
        assert(fill_carries(fill, fill.action, fill.instrument@, fill.quantity@, fill.gross_notional@, fill.fee@));
        order.filled_quantity = checked_add(order.filled_quantity, fill_quantity, "filled quantity")?;
        let remaining_quantity = checked_sub(remaining, fill_quantity, "remaining quantity")?;
        order.remaining_quantity = Some(remaining_quantity);
        order.fills.push(fill.clone());
        order.status = if remaining_quantity.is_zero() {
            OrderStatus::Filled
        } else {
            OrderStatus::PartiallyFilled
        };
        Ok(ExecutionResult {
            order_id: order.order_id,
            status: order.status,
            fill: Some(fill),
            remaining_quantity: Some(remaining_quantity),
        })
    }

    /// Places an agent order against a snapshot: market orders fill at once,
    /// limit orders when marketable, and the order is kept under a fresh ID.
    pub fn execute(&mut self, request: ExecutionRequest, snapshot: MarketSnapshot) -> (r: Result<ExecutionResult, SimulationError>)
        requires
            old(self).wf(),
        ensures
            final(self).wf(),
            final(self).spec_config() == old(self).spec_config(),
            request_fault(request) matches Some(f) ==> r matches Err(e) && fault_is(f, e) && *final(self) == *old(self),
            request_fault(request) is None && snapshot_fault(snapshot) is Some ==> (r matches Err(e) && fault_is(
                snapshot_fault(snapshot)->0,
                e,
            ) && *final(self) == *old(self)),
            request_fault(request) is None && snapshot_fault(snapshot) is None && request.instrument@ != snapshot.instrument@
                ==> r == Err::<ExecutionResult, SimulationError>(
                SimulationError::InvalidMarketSnapshot("request and snapshot instruments must match"),
            ) && *final(self) == *old(self),
            r is Ok ==> {
                let res = r->Ok_0;
                let orders = final(self).spec_orders();
                &&& snapshot_of(final(self).spec_snapshots(), snapshot.instrument@) == Some(snapshot)
                &&& res.order_id == old(self).spec_next_order_id()
                &&& orders.len() == old(self).spec_orders().len() + 1
                &&& orders.drop_last() == old(self).spec_orders()
                &&& orders.last().order_id == res.order_id
                &&& orders.last().request == request
                &&& orders.last().status == res.status
                &&& res.fill matches Some(f) ==> fill_fits(f, orders.last(), snapshot, ExecutionReason::AgentOrder,
                    old(self).spec_config().spec_fee_model()) && booked(old(self).spec_account(), f, final(self).spec_account())
                &&& res.fill is None ==> final(self).spec_account() == old(self).spec_account()
            },
    {
        request.validate()?;
        snapshot.validate()?;
        if !request.instrument.same_as(&snapshot.instrument) {
            return Err(SimulationError::InvalidMarketSnapshot("request and snapshot instruments must match"));
        }
        store_snapshot(&mut self.latest_snapshots, snapshot.clone());
        let order_id = self.allocate_order_id()?;
        let requested = initial_quantity(&request.size);
        let mut order = SimulatedOrder {
            order_id,
            request,
            status: OrderStatus::Pending,
            requested_quantity: requested,
            filled_quantity: Dec::zero(),
            remaining_quantity: requested,
            fills: Vec::new(),
        };
        let fill_model = self.config.fill_model();
        let marketable = self.limit_is_fillable(&order.request, &snapshot)?;
        let result = if marketable {
            self.fill_order(&mut order, &snapshot, ExecutionReason::AgentOrder, fill_model)?
        } else {
            ExecutionResult { order_id, status: OrderStatus::Pending, fill: None, remaining_quantity: order.remaining_quantity }
        };
        proof {
            assert forall|i: int| 0 <= i < self.orders@.len() implies (#[trigger] self.orders@[i]).order_id < order.order_id by {}
        }
        self.orders.push(order);
        proof {
            assert(self.orders@.drop_last() =~= old(self).spec_orders());
        }
        Ok(result)
    }

    pub fn cancel_order(&mut self, order_id: u64) -> (r: Result<(), SimulationError>)
        requires
            old(self).wf(),
        ensures
            final(self).wf(),
            final(self).spec_account() == old(self).spec_account(),
            final(self).spec_orders().len() == old(self).spec_orders().len(),
            (forall|i: int| 0 <= i < old(self).spec_orders().len() ==> (#[trigger] old(self).spec_orders()[i]).order_id != order_id)
                ==> r == Err::<(), SimulationError>(SimulationError::OrderNotFound(order_id)) && *final(self) == *old(self),
            forall|i: int| 0 <= i < old(self).spec_orders().len() && (#[trigger] old(self).spec_orders()[i]).order_id == order_id ==> {
                let o = old(self).spec_orders()[i];
                if o.status == OrderStatus::Filled || o.status == OrderStatus::Cancelled {
                    r == Err::<(), SimulationError>(SimulationError::OrderAlreadyFinal(order_id)) && *final(self) == *old(self)
                } else {
                    &&& r is Ok
                    &&& final(self).spec_orders()[i].status == OrderStatus::Cancelled
                    &&& order_same(final(self).spec_orders()[i], SimulatedOrder { status: final(self).spec_orders()[i].status, ..o })
                    &&& forall|j: int| 0 <= j < old(self).spec_orders().len() && j != i ==> #[trigger] final(self).spec_orders()[j]
                        == old(self).spec_orders()[j]
                }
            },
    {
        let mut i: usize = 0;
        while i < self.orders.len()
            invariant
                i <= self.orders@.len(),
                *self == *old(self),
                old(self).wf(),
                forall|j: int| 0 <= j < i ==> (#[trigger] self.orders@[j]).order_id != order_id,
            decreases self.orders.len() - i,
        {
            if self.orders[i].order_id == order_id {
                let st = self.orders[i].status;
                if st == OrderStatus::Filled || st == OrderStatus::Cancelled {
                    return Err(SimulationError::OrderAlreadyFinal(order_id));
                }
                let mut o = self.orders[i].clone();
                o.status = OrderStatus::Cancelled;
                let ghost before = self.orders@;
                self.orders.set(i, o);
                proof {
                    assert forall|a: int, b: int| 0 <= a < b < before.len() implies (#[trigger] before[a]).order_id < (#[trigger] before[b]).order_id by {}
                    assert(o.fills@ == before[i as int].fills@);
                }
                return Ok(());
            }
            i = i + 1;
        }
        Err(SimulationError::OrderNotFound(order_id))
    }

    /// Processes a new snapshot: a hard stop-loss or take-profit on the
    /// instrument's position cancels its open limit orders and exits the whole
    /// position at market; then open limit orders that became marketable fill.
    pub fn on_market_snapshot(&mut self, snapshot: MarketSnapshot) -> (r: Result<Vec<ExecutionResult>, SimulationError>)
        requires
            old(self).wf(),
        ensures
            final(self).wf(),
            final(self).spec_config() == old(self).spec_config(),
            snapshot_fault(snapshot) is Some ==> (r matches Err(e) && fault_is(snapshot_fault(snapshot)->0, e) && *final(self)
                == *old(self)),
            r is Ok ==> snapshot_of(final(self).spec_snapshots(), snapshot.instrument@) == Some(snapshot),
            r is Ok ==> match position_of(old(self).spec_account().positions@, snapshot.instrument@) {
                Some(p) => match protective_of(
                    old(self).spec_config().spec_stop_loss_pct(),
                    old(self).spec_config().spec_take_profit_pct(),
                    p,
                    snapshot.best_bid,
                ) {
                    Some(Some(reason)) => (forall|j: int|
                        0 <= j < final(self).spec_orders().len() ==> !open_limit_on(
                            #[trigger] final(self).spec_orders()[j],
                            snapshot.instrument@,
                        )) && (units(p.quantity@) > 0 ==> {
                        let res = r->Ok_0;
                        &&& res@.len() >= 1
                        &&& res@[0].fill matches Some(f) && f.reason == reason && f.action == TradeAction::Sell
                            && f.quantity == p.quantity && f.instrument@ == snapshot.instrument@
                        &&& position_of(final(self).spec_account().positions@, snapshot.instrument@) is None
                    }),
                    _ => true,
                },
                None => true,
            },
            r is Ok ==> match position_of(old(self).spec_account().positions@, snapshot.instrument@) {
                None => true,
                Some(p) => {
                    let e = p.average_entry_price@;
                    let st = old(self).spec_config().spec_stop_loss_pct()@;
                    let computable = 0 <= units(st) <= one_units() && e.1 + st.1 <= MAX_SCALE && -(MAX_MANTISSA as int) <= e.0
                        * (pow10(st.1) - st.0) <= MAX_MANTISSA as int && (take_factor(
                        old(self).spec_config().spec_take_profit_pct()@,
                    ) matches Some(tf) && decimal_mul(e, tf) is Some);
                    &&& computable && units(p.quantity@) > 0 && units(snapshot.best_bid@) * one_units() <= units(e) * (one_units()
                        - units(st)) ==> {
                        let res = r->Ok_0;
                        &&& res@.len() >= 1
                        &&& res@[0].fill matches Some(f) && f.reason == ExecutionReason::HardStopLoss && f.action
                            == TradeAction::Sell && f.quantity == p.quantity && f.instrument@ == snapshot.instrument@
                        &&& position_of(final(self).spec_account().positions@, snapshot.instrument@) is None
                    }
                    &&& computable && units(p.quantity@) > 0 && 0 <= units(old(self).spec_config().spec_take_profit_pct()@)
                        <= one_units() && e.1 + old(self).spec_config().spec_take_profit_pct()@.1 <= MAX_SCALE
                        && -(MAX_MANTISSA as int) <= e.0 * (pow10(old(self).spec_config().spec_take_profit_pct()@.1)
                        + old(self).spec_config().spec_take_profit_pct()@.0) <= MAX_MANTISSA as int && units(snapshot.best_bid@)
                        * one_units() > units(e) * (one_units() - units(st)) && units(snapshot.best_bid@) * one_units() >= units(e)
                        * (one_units() + units(old(self).spec_config().spec_take_profit_pct()@)) ==> {
                        let res = r->Ok_0;
                        &&& res@.len() >= 1
                        &&& res@[0].fill matches Some(f) && f.reason == ExecutionReason::HardTakeProfit && f.action
                            == TradeAction::Sell && f.quantity == p.quantity && f.instrument@ == snapshot.instrument@
                        &&& position_of(final(self).spec_account().positions@, snapshot.instrument@) is None
                    }
                    &&& computable && units(snapshot.best_bid@) * one_units() > units(e) * (one_units() - units(st)) ==> protective_of(
                        old(self).spec_config().spec_stop_loss_pct(),
                        old(self).spec_config().spec_take_profit_pct(),
                        p,
                        snapshot.best_bid,
                    ) != Some(Some(ExecutionReason::HardStopLoss))
                },
            },
    {
        snapshot.validate()?;
        store_snapshot(&mut self.latest_snapshots, snapshot.clone());
        let mut results: Vec<ExecutionResult> = Vec::new();
        let protective = self.protective_reason(&snapshot)?;
        let ghost sym = snapshot.instrument@;
        if protective.is_some() {
            let mut i: usize = 0;
            while i < self.orders.len()
                invariant
                    self.wf(),
                    i <= self.orders@.len(),
                    self.spec_account() == old(self).spec_account(),
                    self.spec_config() == old(self).spec_config(),
                    snapshot_of(self.spec_snapshots(), sym) == Some(snapshot),
                    sym == snapshot.instrument@,
                    snapshot_fault(snapshot) is None,
                    forall|j: int| 0 <= j < i ==> !open_limit_on(#[trigger] self.orders@[j], sym),
                decreases self.orders.len() - i,
            {
                let o = &self.orders[i];
                let is_limit = match o.request.order_type {
                    OrderType::Limit { .. } => true,
                    OrderType::Market => false,
                };
                if o.request.instrument.same_as(&snapshot.instrument) && (o.status == OrderStatus::Pending || o.status
                    == OrderStatus::PartiallyFilled) && is_limit {
                    let mut c = o.clone();
                    c.status = OrderStatus::Cancelled;
                    let ghost before = self.orders@;
                    self.orders.set(i, c);
                    proof {
                        assert forall|a: int, b: int| 0 <= a < b < self.orders@.len() implies (#[trigger] self.orders@[a]).order_id
                            < (#[trigger] self.orders@[b]).order_id by {
                            assert(before[a].order_id < before[b].order_id);
                        }
                    }
                }
                i = i + 1;
            }
        }
        let ghost before_exit = self.spec_account();
        assert(protective is Some ==> forall|j: int| 0 <= j < self.orders@.len() ==> !open_limit_on(#[trigger] self.orders@[j], sym));
        match protective {
            Some(reason) => {
                match find_position(&self.account.positions, &snapshot.instrument) {
                    Some(k) => {
                        let position = self.account.positions[k].clone();
                        let positive = position.quantity.is_positive();
                        let request = ExecutionRequest::market(
                            snapshot.instrument.clone(),
                            TradeAction::Sell,
                            OrderSize::Quantity(position.quantity),
                            snapshot.timestamp,
                        );
                        let order_id = self.allocate_order_id()?;
                        let mut order = SimulatedOrder {
                            order_id,
                            request,
                            status: OrderStatus::Pending,
                            requested_quantity: Some(position.quantity),
                            filled_quantity: Dec::zero(),
                            remaining_quantity: Some(position.quantity),
                            fills: Vec::new(),
                        };
                        let result = self.fill_order(&mut order, &snapshot, reason, FillModel::Full)?;
                        proof {
                            let q = position.quantity@;
                            let pw = crate::dec::pow10((crate::dec::MAX_SCALE - q.1) as nat);
                            crate::dec::lemma_pow10_positive((crate::dec::MAX_SCALE - q.1) as nat);
                            assert(q.0 * pw + (-q.0) * pw == 0) by (nonlinear_arith);
                            assert(crate::dec::add_fits(q, (-q.0, q.1)));
                            assert(sub_fits(q, q));
                            if positive {
                                assert(result.fill is Some);
                                let f = result.fill->0;
                                assert(position_of(before_exit.positions@, sym) == Some(position));
                                assert(f.quantity == position.quantity);
                                assert(position_of(self.spec_account().positions@, sym) is None);
                            }
                        }
                        proof {
                            assert forall|i: int| 0 <= i < self.orders@.len() implies (#[trigger] self.orders@[i]).order_id < order.order_id by {}
                        }
                        let ghost before_push = self.orders@;
                        self.orders.push(order);
                        results.push(result);
                        proof {
                            assert forall|j: int| 0 <= j < self.orders@.len() implies !open_limit_on(#[trigger] self.orders@[j], sym) by {
                                if j < before_push.len() {
                                    assert(self.orders@[j] == before_push[j]);
                                }
                            }
                        }
                    },
                    None => {},
                }
            },
            None => {},
        }
        // Open limit orders on the instrument, in ID order.
        let ghost exit_results = results@;
        let ghost exit_account = self.spec_account();
        let ghost exit_self = *self;
        assert(protective is Some ==> forall|j: int| 0 <= j < self.orders@.len() ==> !open_limit_on(#[trigger] self.orders@[j], sym));
        let mut candidates: Vec<u64> = Vec::new();
        let mut i: usize = 0;
        while i < self.orders.len()
            invariant
                i <= self.orders@.len(),
                sym == snapshot.instrument@,
                *self == exit_self,
                results@ == exit_results,
                (forall|j: int| 0 <= j < self.orders@.len() ==> !open_limit_on(#[trigger] self.orders@[j], sym)) ==> candidates@.len() == 0,
            decreases self.orders.len() - i,
        {
            let o = &self.orders[i];
            let is_limit = match o.request.order_type {
                OrderType::Limit { .. } => true,
                OrderType::Market => false,
            };
            if o.request.instrument.same_as(&snapshot.instrument) && (o.status == OrderStatus::Pending || o.status
                == OrderStatus::PartiallyFilled) && is_limit {
                assert(open_limit_on(self.orders@[i as int], sym));
                candidates.push(o.order_id);
            }
            i = i + 1;
        }
        let ghost settled = self.spec_account();
        let mut c: usize = 0;
        while c < candidates.len()
            invariant
                candidates@.len() == 0 ==> self.spec_account() == settled,
                candidates@.len() == 0 ==> *self == exit_self,
                snapshot_fault(snapshot) is None,
                results@.len() >= exit_results.len(),
                forall|q: int| 0 <= q < exit_results.len() ==> #[trigger] results@[q] == exit_results[q],
                self.wf(),
                self.spec_config() == old(self).spec_config(),
                snapshot_of(self.spec_snapshots(), sym) == Some(snapshot),
                sym == snapshot.instrument@,
                c <= candidates@.len(),
            decreases candidates.len() - c,
        {
            let id = candidates[c];
            let mut k: usize = 0;
            while k < self.orders.len() && self.orders[k].order_id != id
                invariant
                    k <= self.orders@.len(),
                decreases self.orders.len() - k,
            {
                k = k + 1;
            }
            if k == self.orders.len() {
                return Err(SimulationError::OrderNotFound(id));
            }
            let mut order = self.orders[k].clone();
            let fillable = match self.limit_is_fillable(&order.request, &snapshot) {
                Ok(b) => b,
                Err(e) => {
                    let ghost before = self.orders@;
                    self.orders.remove(k);
                    proof {
                        assert forall|a: int, b: int| 0 <= a < b < self.orders@.len() implies (#[trigger] self.orders@[a]).order_id
                            < (#[trigger] self.orders@[b]).order_id by {
                            let sa = if a < k as int { a } else { a + 1 };
                            let sb = if b < k as int { b } else { b + 1 };
                            assert(self.orders@[a] == before[sa] && self.orders@[b] == before[sb]);
                        }
                        assert forall|a: int| 0 <= a < self.orders@.len() implies (#[trigger] self.orders@[a]).order_id < self.spec_next_order_id() by {
                            let sa = if a < k as int { a } else { a + 1 };
                            assert(self.orders@[a] == before[sa]);
                        }
                    }
                    return Err(e);
                },
            };
            if fillable {
                let fill_model = self.config.fill_model();
                match self.fill_order(&mut order, &snapshot, ExecutionReason::AgentOrder, fill_model) {
                    Ok(res) => results.push(res),
                    Err(e) => {
                        self.put_order_back(k, order);
                        return Err(e);
                    },
                }
            }
            self.put_order_back(k, order);
            c = c + 1;
        }
        Ok(results)
    }

    /// Stores an order back at its index; its ID is unchanged.
    fn put_order_back(&mut self, k: usize, order: SimulatedOrder)
        requires
            old(self).wf(),
            k < old(self).spec_orders().len(),
            order.order_id == old(self).spec_orders()[k as int].order_id,
        ensures
            final(self).wf(),
            final(self).spec_config() == old(self).spec_config(),
            final(self).spec_account() == old(self).spec_account(),
            final(self).spec_snapshots() == old(self).spec_snapshots(),
            final(self).spec_orders() == old(self).spec_orders().update(k as int, order),
    {
        let ghost before = self.orders@;
        self.orders.set(k, order);
        proof {
            assert forall|a: int, b: int| 0 <= a < b < self.orders@.len() implies (#[trigger] self.orders@[a]).order_id
                < (#[trigger] self.orders@[b]).order_id by {
                assert(before[a].order_id < before[b].order_id);
            }
        }
    }

    /// Cash, positions, realized PnL and fees, with equity marked at each
    /// position's latest bid.
    pub fn portfolio_snapshot(&self) -> (r: Result<PortfolioSnapshot, SimulationError>)
        requires
            self.wf(),
        ensures
            r is Ok <==> marked_equity(self.spec_account().cash@, self.spec_account().positions@, self.spec_snapshots()) is Some,
            r matches Ok(p) ==> {
                &&& p.cash == self.spec_account().cash
                &&& p.positions@ == self.spec_account().positions@
                &&& p.realized_pnl == self.spec_account().realized_pnl
                &&& p.fees_paid == self.spec_account().fees_paid
                &&& Some(p.equity@) == marked_equity(self.spec_account().cash@, self.spec_account().positions@, self.spec_snapshots())
            },
            r matches Err(SimulationError::MissingMarketSnapshot(s)) ==> exists|i: int|
                0 <= i < self.spec_account().positions@.len() && (#[trigger] self.spec_account().positions@[i]).instrument@ == s@
                    && snapshot_of(self.spec_snapshots(), s@) is None,
    {
        let ps = &self.account.positions;
        let mut equity = self.account.cash;
        let mut positions: Vec<SimulatedPosition> = Vec::new();
        let mut i: usize = 0;
        while i < ps.len()
            invariant
                i <= ps@.len(),
                ps@ == self.spec_account().positions@,
                snapshots_distinct(self.spec_snapshots()),
                positions@ == ps@.subrange(0, i as int),
                Some(equity@) == marked_equity(self.spec_account().cash@, ps@.subrange(0, i as int), self.spec_snapshots()),
            decreases ps.len() - i,
        {
            let p = &ps[i];
            let ghost pre = ps@.subrange(0, i as int);
            proof {
                assert(ps@.subrange(0, i + 1).drop_last() =~= pre);
                assert(ps@.subrange(0, i + 1).last() == ps@[i as int]);
                assert(ps@.subrange(0, i + 1) =~= pre.push(ps@[i as int]));
            }
            let k = match find_snapshot(&self.latest_snapshots, &p.instrument) {
                Some(k) => k,
                None => {
                    proof {
                        lemma_marked_equity_extends(self.spec_account().cash@, ps@, self.spec_snapshots(), (i + 1) as int);
                    }
                    return Err(SimulationError::MissingMarketSnapshot(p.instrument.to_symbol_string()));
                },
            };
            let marked = match checked_mul(p.quantity, self.latest_snapshots[k].best_bid, "marked inventory") {
                Ok(m) => m,
                Err(e) => {
                    proof {
                        lemma_marked_equity_extends(self.spec_account().cash@, ps@, self.spec_snapshots(), (i + 1) as int);
                    }
                    return Err(e);
                },
            };
            equity = match checked_add(equity, marked, "portfolio equity") {
                Ok(x) => x,
                Err(e) => {
                    proof {
                        lemma_marked_equity_extends(self.spec_account().cash@, ps@, self.spec_snapshots(), (i + 1) as int);
                    }
                    return Err(e);
                },
            };
            positions.push(p.clone());
            i = i + 1;
        }
        proof {
            assert(ps@.subrange(0, ps@.len() as int) =~= ps@);
        }
        Ok(PortfolioSnapshot {
            cash: self.account.cash,
            positions,
            realized_pnl: self.account.realized_pnl,
            fees_paid: self.account.fees_paid,
            equity,
        })
    }
}

/// Cash plus each position's quantity marked at its latest bid, added in
/// position order; `None` where a snapshot is missing or a step overflows.
pub open spec fn marked_equity(cash: DecView, ps: Seq<SimulatedPosition>, snaps: Seq<MarketSnapshot>) -> Option<DecView>
    decreases ps.len(),
{
    if ps.len() == 0 {
        Some(cash)
    } else {
        match snapshot_of(snaps, ps.last().instrument@) {
            None => None,
            Some(snap) => super::add_o(
                marked_equity(cash, ps.drop_last(), snaps),
                decimal_mul(ps.last().quantity@, snap.best_bid@),
            ),
        }
    }
}

/// Once a prefix has no equity, no longer prefix has one.
pub proof fn lemma_marked_equity_extends(cash: DecView, ps: Seq<SimulatedPosition>, snaps: Seq<MarketSnapshot>, n: int)
    requires
        0 < n <= ps.len(),
        marked_equity(cash, ps.subrange(0, n), snaps) is None,
    ensures
        marked_equity(cash, ps, snaps) is None,
    decreases ps.len() - n,
{
    if n < ps.len() {
        let t = ps.subrange(0, n + 1);
        assert(t.drop_last() =~= ps.subrange(0, n));
        lemma_marked_equity_extends(cash, ps, snaps, n + 1);
    } else {
        assert(ps.subrange(0, n) =~= ps);
    }
}

/// An open limit order on the instrument `sym`.
pub open spec fn open_limit_on(o: SimulatedOrder, sym: Seq<char>) -> bool {
    o.request.instrument@ == sym && is_open(o.status) && o.request.order_type is Limit
}

pub open spec fn is_open(s: OrderStatus) -> bool {
    s == OrderStatus::Pending || s == OrderStatus::PartiallyFilled
}

} // verus!
