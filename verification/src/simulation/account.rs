//! Synthetic account: cash, positions keyed by instrument, realized PnL and fees.

use vstd::prelude::*;

use crate::dec::{decimal_add, decimal_div, decimal_mul, decimal_sub, sub_fits, units, Dec, DecView};
use crate::domain::decisions::TradeAction;
use crate::domain::instrument::{lemma_lex_asymmetric, lemma_lex_irreflexive, lemma_lex_total, lemma_lex_transitive, lex_lt, Instrument};
use super::{
    add_o, checked_add, checked_div, checked_mul, checked_sub, div_o, mul_o, step_ok, sub_o, zero_view,
    InitialPosition, SimulationConfig, SimulationError, SimulationFill,
};

verus! {

#[derive(Debug, PartialEq, Eq)]
pub struct SimulatedPosition {
    pub instrument: Instrument,
    pub quantity: Dec,
    /// Effective weighted cost per unit, including entry fees.
    pub average_entry_price: Dec,
    pub realized_pnl: Dec,
}

impl Clone for SimulatedPosition {
    fn clone(&self) -> (r: SimulatedPosition)
        ensures
            r == *self,
    {
        SimulatedPosition {
            instrument: self.instrument.clone(),
            quantity: self.quantity,
            average_entry_price: self.average_entry_price,
            realized_pnl: self.realized_pnl,
        }
    }
}

impl SimulatedPosition {
    /// Quantity times average entry price.
    pub fn cost_basis(&self) -> (r: Result<Dec, SimulationError>)
        ensures
            step_ok(decimal_mul(self.quantity@, self.average_entry_price@), r),
    {
        checked_mul(self.quantity, self.average_entry_price, "position cost basis")
    }

    /// Market value at `mark_price` less the cost basis.
    pub fn unrealized_pnl(&self, mark_price: Dec) -> (r: Result<Dec, SimulationError>)
        ensures
            units(mark_price@) <= 0 ==> r == Err::<Dec, SimulationError>(SimulationError::InvalidPrice(mark_price)),
            units(mark_price@) > 0 ==> step_ok(
                sub_o(decimal_mul(self.quantity@, mark_price@), decimal_mul(self.quantity@, self.average_entry_price@)),
                r,
            ),
    {
        if !mark_price.is_positive() {
            return Err(SimulationError::InvalidPrice(mark_price));
        }
        let market_value = checked_mul(self.quantity, mark_price, "unrealized market value")?;
        let cost_basis = self.cost_basis()?;
        checked_sub(market_value, cost_basis, "unrealized PnL")
    }
}

/// Positions ascend strictly by instrument symbol, so each symbol has one.
pub open spec fn positions_sorted(s: Seq<SimulatedPosition>) -> bool {
    forall|i: int, j: int| 0 <= i < j < s.len() ==> lex_lt((#[trigger] s[i]).instrument@, (#[trigger] s[j]).instrument@)
}

/// The position held in `sym`.
pub open spec fn position_of(s: Seq<SimulatedPosition>, sym: Seq<char>) -> Option<SimulatedPosition>
    decreases s.len(),
{
    if s.len() == 0 {
        None
    } else if s.last().instrument@ == sym {
        Some(s.last())
    } else {
        position_of(s.drop_last(), sym)
    }
}

pub proof fn lemma_position_of_none(s: Seq<SimulatedPosition>, sym: Seq<char>)
    requires
        forall|i: int| 0 <= i < s.len() ==> (#[trigger] s[i]).instrument@ != sym,
    ensures
        position_of(s, sym) is None,
    decreases s.len(),
{
    if s.len() > 0 {
        assert(s.last() == s[s.len() - 1]);
        lemma_position_of_none(s.drop_last(), sym);
    }
}

pub proof fn lemma_position_of_at(s: Seq<SimulatedPosition>, k: int)
    requires
        positions_sorted(s),
        0 <= k < s.len(),
    ensures
        position_of(s, s[k].instrument@) == Some(s[k]),
    decreases s.len(),
{
    if k < s.len() - 1 {
        assert(s.last() == s[s.len() - 1]);
        assert(lex_lt(s[k].instrument@, s[s.len() - 1].instrument@));
        lemma_lex_irreflexive(s[k].instrument@);
        let t = s.drop_last();
        assert(t[k] == s[k]);
        assert(positions_sorted(t)) by {
            assert forall|i: int, j: int| 0 <= i < j < t.len() implies lex_lt((#[trigger] t[i]).instrument@, (#[trigger] t[j]).instrument@) by {
                assert(t[i] == s[i] && t[j] == s[j]);
            }
        }
        lemma_position_of_at(t, k);
    }
}

pub proof fn lemma_position_of_some(s: Seq<SimulatedPosition>, sym: Seq<char>)
    requires
        position_of(s, sym) is Some,
    ensures
        exists|k: int| 0 <= k < s.len() && s[k] == position_of(s, sym)->0 && s[k].instrument@ == sym,
    decreases s.len(),
{
    if s.last().instrument@ == sym {
        assert(s[s.len() - 1] == s.last());
    } else {
        let t = s.drop_last();
        lemma_position_of_some(t, sym);
        let k = choose|k: int| 0 <= k < t.len() && t[k] == position_of(t, sym)->0 && t[k].instrument@ == sym;
        assert(s[k] == t[k]);
    }
}

/// `t` holds `p` under its symbol and agrees with `s` on every other symbol.
pub open spec fn put(s: Seq<SimulatedPosition>, p: SimulatedPosition, t: Seq<SimulatedPosition>) -> bool {
    &&& positions_sorted(t)
    &&& position_of(t, p.instrument@) == Some(p)
    &&& forall|sym: Seq<char>| sym != p.instrument@ ==> position_of(t, sym) == #[trigger] position_of(s, sym)
}

/// `t` holds nothing under `sym` and agrees with `s` on every other symbol.
pub open spec fn dropped(s: Seq<SimulatedPosition>, sym: Seq<char>, t: Seq<SimulatedPosition>) -> bool {
    &&& positions_sorted(t)
    &&& position_of(t, sym) is None
    &&& forall|other: Seq<char>| other != sym ==> position_of(t, other) == #[trigger] position_of(s, other)
}

/// The index of the position in `sym`, if any.
pub fn find_position(positions: &Vec<SimulatedPosition>, instrument: &Instrument) -> (k: Option<usize>)
    requires
        positions_sorted(positions@),
    ensures
        k matches Some(i) ==> i < positions@.len() && positions@[i as int].instrument@ == instrument@
            && position_of(positions@, instrument@) == Some(positions@[i as int]),
        k is None ==> position_of(positions@, instrument@) is None,
{
    let mut i: usize = 0;
    while i < positions.len()
        invariant
            i <= positions@.len(),
            positions_sorted(positions@),
            forall|j: int| 0 <= j < i ==> (#[trigger] positions@[j]).instrument@ != instrument@,
        decreases positions.len() - i,
    {
        if positions[i].instrument.same_as(instrument) {
            proof {
                lemma_position_of_at(positions@, i as int);
            }
            return Some(i);
        }
        i = i + 1;
    }
    proof {
        lemma_position_of_none(positions@, instrument@);
    }
    None
}

/// Stores `p` under its symbol, in symbol order.
pub fn put_position(positions: &mut Vec<SimulatedPosition>, p: SimulatedPosition)
    requires
        positions_sorted(old(positions)@),
    ensures
        put(old(positions)@, p, final(positions)@),
{
    let ghost s = positions@;
    let ghost key = p.instrument@;
    let mut i: usize = 0;
    while i < positions.len() && positions[i].instrument.precedes(&p.instrument)
        invariant
            i <= positions@.len(),
            positions@ == s,
            key == p.instrument@,
            forall|j: int| 0 <= j < i ==> lex_lt((#[trigger] positions@[j]).instrument@, key),
        decreases positions.len() - i,
    {
        i = i + 1;
    }
    proof {
        assert forall|k: int| i <= k < s.len() implies !lex_lt((#[trigger] s[k]).instrument@, key) by {
            if k > i as int {
                assert(lex_lt(s[i as int].instrument@, s[k].instrument@));
                if lex_lt(s[k].instrument@, key) {
                    lemma_lex_transitive(s[i as int].instrument@, s[k].instrument@, key);
                }
            }
        }
    }
    if i < positions.len() && positions[i].instrument.same_as(&p.instrument) {
        positions.set(i, p);
        let ghost t = positions@;
        proof {
            assert(t == s.update(i as int, p));
            assert(positions_sorted(t)) by {
                assert forall|a: int, b: int| 0 <= a < b < t.len() implies lex_lt((#[trigger] t[a]).instrument@, (#[trigger] t[b]).instrument@) by {
                    assert(lex_lt(s[a].instrument@, s[b].instrument@));
                }
            }
            lemma_position_of_at(t, i as int);
            assert forall|other: Seq<char>| other != key implies position_of(t, other) == #[trigger] position_of(s, other) by {
                if exists|k: int| 0 <= k < s.len() && s[k].instrument@ == other {
                    let k = choose|k: int| 0 <= k < s.len() && s[k].instrument@ == other;
                    assert(k != i as int);
                    assert(t[k] == s[k]);
                    lemma_position_of_at(s, k);
                    lemma_position_of_at(t, k);
                } else {
                    lemma_position_of_none(s, other);
                    assert forall|k: int| 0 <= k < t.len() implies (#[trigger] t[k]).instrument@ != other by {
                        if k != i as int {
                            assert(t[k] == s[k]);
                        }
                    }
                    lemma_position_of_none(t, other);
                }
            }
        }
    } else {
        proof {
            assert forall|k: int| i <= k < s.len() implies lex_lt(key, (#[trigger] s[k]).instrument@) by {
                if k == i as int {
                    lemma_lex_total(key, s[k].instrument@);
                } else {
                    assert(lex_lt(s[i as int].instrument@, s[k].instrument@));
                    lemma_lex_total(key, s[i as int].instrument@);
                    if key =~= s[i as int].instrument@ {
                    } else {
                        lemma_lex_transitive(key, s[i as int].instrument@, s[k].instrument@);
                    }
                }
            }
        }
        positions.insert(i, p);
        let ghost t = positions@;
        proof {
            assert(t == s.insert(i as int, p));
            assert(positions_sorted(t)) by {
                assert forall|a: int, b: int| 0 <= a < b < t.len() implies lex_lt((#[trigger] t[a]).instrument@, (#[trigger] t[b]).instrument@) by {
                    if a < i as int && b < i as int {
                        assert(t[a] == s[a] && t[b] == s[b]);
                    } else if a < i as int && b == i as int {
                        assert(t[a] == s[a]);
                    } else if a < i as int {
                        assert(t[a] == s[a] && t[b] == s[b - 1]);
                        assert(lex_lt(s[a].instrument@, s[b - 1].instrument@));
                    } else if a == i as int {
                        assert(t[b] == s[b - 1]);
                    } else {
                        assert(t[a] == s[a - 1] && t[b] == s[b - 1]);
                    }
                }
            }
            lemma_position_of_at(t, i as int);
            assert forall|other: Seq<char>| other != key implies position_of(t, other) == #[trigger] position_of(s, other) by {
                if exists|k: int| 0 <= k < s.len() && s[k].instrument@ == other {
                    let k = choose|k: int| 0 <= k < s.len() && s[k].instrument@ == other;
                    lemma_position_of_at(s, k);
                    if k < i as int {
                        assert(t[k] == s[k]);
                        lemma_position_of_at(t, k);
                    } else {
                        assert(t[k + 1] == s[k]);
                        lemma_position_of_at(t, k + 1);
                    }
                } else {
                    lemma_position_of_none(s, other);
                    assert forall|k: int| 0 <= k < t.len() implies (#[trigger] t[k]).instrument@ != other by {
                        if k < i as int {
                            assert(t[k] == s[k]);
                        } else if k > i as int {
                            assert(t[k] == s[k - 1]);
                        }
                    }
                    lemma_position_of_none(t, other);
                }
            }
        }
    }
}

/// Removes the position at index `k`.
pub fn drop_position(positions: &mut Vec<SimulatedPosition>, k: usize)
    requires
        positions_sorted(old(positions)@),
        k < old(positions)@.len(),
    ensures
        dropped(old(positions)@, old(positions)@[k as int].instrument@, final(positions)@),
{
    let ghost s = positions@;
    let ghost key = s[k as int].instrument@;
    positions.remove(k);
    let ghost t = positions@;
    proof {
        assert(t == s.remove(k as int));
        assert(positions_sorted(t)) by {
            assert forall|a: int, b: int| 0 <= a < b < t.len() implies lex_lt((#[trigger] t[a]).instrument@, (#[trigger] t[b]).instrument@) by {
                let sa = if a < k as int { a } else { a + 1 };
                let sb = if b < k as int { b } else { b + 1 };
                assert(t[a] == s[sa] && t[b] == s[sb]);
            }
        }
        assert forall|j: int| 0 <= j < t.len() implies (#[trigger] t[j]).instrument@ != key by {
            let sj = if j < k as int { j } else { j + 1 };
            assert(t[j] == s[sj]);
            if sj < k as int {
                assert(lex_lt(s[sj].instrument@, s[k as int].instrument@));
            } else {
                assert(lex_lt(s[k as int].instrument@, s[sj].instrument@));
            }
            lemma_lex_irreflexive(key);
        }
        lemma_position_of_none(t, key);
        assert forall|other: Seq<char>| other != key implies position_of(t, other) == #[trigger] position_of(s, other) by {
            if exists|m: int| 0 <= m < s.len() && s[m].instrument@ == other {
                let m = choose|m: int| 0 <= m < s.len() && s[m].instrument@ == other;
                lemma_position_of_at(s, m);
                assert(m != k as int);
                if m < k as int {
                    assert(t[m] == s[m]);
                    lemma_position_of_at(t, m);
                } else {
                    assert(t[m - 1] == s[m]);
                    lemma_position_of_at(t, m - 1);
                }
            } else {
                lemma_position_of_none(s, other);
                assert forall|j: int| 0 <= j < t.len() implies (#[trigger] t[j]).instrument@ != other by {
                    let sj = if j < k as int { j } else { j + 1 };
                    assert(t[j] == s[sj]);
                }
                lemma_position_of_none(t, other);
            }
        }
    }
}

/// The account's cash, positions in symbol order, realized PnL and fees paid.
pub struct SimulatedAccount {
    pub cash: Dec,
    pub positions: Vec<SimulatedPosition>,
    pub realized_pnl: Dec,
    pub fees_paid: Dec,
}

/// The position an initial position opens.
pub open spec fn opened(ip: InitialPosition) -> SimulatedPosition {
    SimulatedPosition {
        instrument: ip.instrument,
        quantity: ip.quantity,
        average_entry_price: ip.average_entry_price,
        realized_pnl: Dec::spec_zero(),
    }
}

/// The last initial position in `sym`, opened.
pub open spec fn initial_position_of(ps: Seq<InitialPosition>, sym: Seq<char>) -> Option<SimulatedPosition>
    decreases ps.len(),
{
    if ps.len() == 0 {
        None
    } else if ps.last().instrument@ == sym {
        Some(opened(ps.last()))
    } else {
        initial_position_of(ps.drop_last(), sym)
    }
}

/// What a buy fill costs in cash: gross notional plus fee.
pub open spec fn buy_total(f: SimulationFill) -> Option<DecView> {
    decimal_add(f.gross_notional@, f.fee@)
}

/// The quantity held after a buy.
pub open spec fn buy_quantity(e: Option<SimulatedPosition>, f: SimulationFill) -> Option<DecView> {
    match e {
        Some(p) => decimal_add(p.quantity@, f.quantity@),
        None => Some(f.quantity@),
    }
}

/// The fee-inclusive weighted entry price after a buy.
pub open spec fn buy_average(e: Option<SimulatedPosition>, f: SimulationFill) -> Option<DecView> {
    match e {
        Some(p) => div_o(
            add_o(decimal_mul(p.quantity@, p.average_entry_price@), buy_total(f)),
            buy_quantity(e, f),
        ),
        None => div_o(buy_total(f), Some(f.quantity@)),
    }
}

/// Every step of a buy has a value and the cash covers its cost.
pub open spec fn buy_goes_through(a: SimulatedAccount, f: SimulationFill) -> bool {
    let e = position_of(a.positions@, f.instrument@);
    &&& buy_total(f) is Some
    &&& units(buy_total(f)->0) <= units(a.cash@)
    &&& decimal_sub(a.cash@, buy_total(f)->0) is Some
    &&& decimal_add(a.fees_paid@, f.fee@) is Some
    &&& e matches Some(p) ==> decimal_mul(p.quantity@, p.average_entry_price@) is Some
    &&& buy_quantity(e, f) is Some
    &&& buy_average(e, f) is Some
}

/// What a sell brings in: gross notional less fee.
pub open spec fn sell_proceeds(f: SimulationFill) -> Option<DecView> {
    decimal_sub(f.gross_notional@, f.fee@)
}

/// The PnL a sell realizes against the position's entry price.
pub open spec fn sell_realized(p: SimulatedPosition, f: SimulationFill) -> Option<DecView> {
    sub_o(sell_proceeds(f), decimal_mul(p.average_entry_price@, f.quantity@))
}

pub open spec fn sell_goes_through(a: SimulatedAccount, p: SimulatedPosition, f: SimulationFill) -> bool {
    let rem = decimal_sub(p.quantity@, f.quantity@);
    &&& sell_proceeds(f) is Some
    &&& sell_realized(p, f) is Some
    &&& add_o(Some(a.cash@), sell_proceeds(f)) is Some
    &&& add_o(Some(a.realized_pnl@), sell_realized(p, f)) is Some
    &&& decimal_add(a.fees_paid@, f.fee@) is Some
    &&& rem is Some
    &&& units(rem->0) != 0 ==> add_o(Some(p.realized_pnl@), sell_realized(p, f)) is Some
}

/// The account is left as it was.
pub open spec fn account_same(a: SimulatedAccount, b: SimulatedAccount) -> bool {
    &&& b.cash == a.cash
    &&& b.positions@ == a.positions@
    &&& b.realized_pnl == a.realized_pnl
    &&& b.fees_paid == a.fees_paid
}

/// The account after a buy fill.
pub open spec fn buy_booked(a: SimulatedAccount, f: SimulationFill, b: SimulatedAccount) -> bool {
    let e = position_of(a.positions@, f.instrument@);
    &&& b.cash@ == decimal_sub(a.cash@, buy_total(f)->0)->0
    &&& b.fees_paid@ == decimal_add(a.fees_paid@, f.fee@)->0
    &&& b.realized_pnl == a.realized_pnl
    &&& (position_of(b.positions@, f.instrument@) matches Some(p) && p.instrument@ == f.instrument@
        && p.quantity@ == buy_quantity(e, f)->0 && p.average_entry_price@ == buy_average(e, f)->0
        && p.realized_pnl == (match e { Some(x) => x.realized_pnl, None => Dec::spec_zero() }))
    &&& forall|sym: Seq<char>| sym != f.instrument@ ==> #[trigger] position_of(b.positions@, sym) == position_of(a.positions@, sym)
}

/// The account after a sell fill against the position `e`.
pub open spec fn sell_booked(a: SimulatedAccount, e: SimulatedPosition, f: SimulationFill, b: SimulatedAccount) -> bool {
    let rem = decimal_sub(e.quantity@, f.quantity@)->0;
    &&& units(f.quantity@) <= units(e.quantity@)
    &&& b.cash@ == add_o(Some(a.cash@), sell_proceeds(f))->0
    &&& b.realized_pnl@ == add_o(Some(a.realized_pnl@), sell_realized(e, f))->0
    &&& b.fees_paid@ == decimal_add(a.fees_paid@, f.fee@)->0
    &&& (units(rem) == 0 ==> position_of(b.positions@, f.instrument@) is None)
    &&& (units(rem) != 0 ==> (position_of(b.positions@, f.instrument@) matches Some(p) && p.instrument == e.instrument
        && p.quantity@ == rem && p.average_entry_price == e.average_entry_price
        && p.realized_pnl@ == add_o(Some(e.realized_pnl@), sell_realized(e, f))->0))
    &&& (sub_fits(e.quantity@, f.quantity@) ==> units(rem) == units(e.quantity@) - units(f.quantity@))
    &&& forall|sym: Seq<char>| sym != f.instrument@ ==> #[trigger] position_of(b.positions@, sym) == position_of(a.positions@, sym)
}

/// The account after a fill has been booked.
pub open spec fn booked(a: SimulatedAccount, f: SimulationFill, b: SimulatedAccount) -> bool {
    match f.action {
        TradeAction::Buy => buy_booked(a, f, b),
        TradeAction::Sell => position_of(a.positions@, f.instrument@) matches Some(e) && sell_booked(a, e, f, b),
        TradeAction::Hold => false,
    }
}

/// A sell that was booked never leaves a short: the position it reduced is
/// gone or still holds what was not sold.
pub proof fn law_sell_never_shorts(a: SimulatedAccount, f: SimulationFill, b: SimulatedAccount)
    requires
        booked(a, f, b),
        f.action == TradeAction::Sell,
    ensures
        position_of(a.positions@, f.instrument@) is Some,
        units(f.quantity@) <= units(position_of(a.positions@, f.instrument@)->0.quantity@),
        position_of(b.positions@, f.instrument@) is Some && sub_fits(
            position_of(a.positions@, f.instrument@)->0.quantity@,
            f.quantity@,
        ) ==> units(position_of(b.positions@, f.instrument@)->0.quantity@) > 0,
{
}

impl SimulatedAccount {
    pub open spec fn wf(&self) -> bool {
        positions_sorted(self.positions@)
    }

    /// The account a configuration starts with.
    pub fn from_config(config: &SimulationConfig) -> (a: SimulatedAccount)
        ensures
            a.wf(),
            a.cash == config.spec_initial_cash(),
            a.realized_pnl@ == zero_view(),
            a.fees_paid@ == zero_view(),
            forall|sym: Seq<char>| #[trigger] position_of(a.positions@, sym) == initial_position_of(config.spec_initial_positions(), sym),
    {
        let ps = config.initial_positions();
        let mut positions: Vec<SimulatedPosition> = Vec::new();
        let mut i: usize = 0;
        while i < ps.len()
            invariant
                i <= ps@.len(),
                ps@ == config.spec_initial_positions(),
                positions_sorted(positions@),
                forall|sym: Seq<char>| #[trigger] position_of(positions@, sym) == initial_position_of(ps@.subrange(0, i as int), sym),
            decreases ps.len() - i,
        {
            let ip = &ps[i];
            let p = SimulatedPosition {
                instrument: ip.instrument.clone(),
                quantity: ip.quantity,
                average_entry_price: ip.average_entry_price,
                realized_pnl: Dec::zero(),
            };
            let ghost before = positions@;
            put_position(&mut positions, p);
            proof {
                let t = ps@.subrange(0, i + 1);
                assert(t.drop_last() =~= ps@.subrange(0, i as int));
                assert(t.last() == ps@[i as int]);
                assert(p == opened(ps@[i as int]));
                assert forall|sym: Seq<char>| #[trigger] position_of(positions@, sym) == initial_position_of(t, sym) by {
                    if sym != p.instrument@ {
                        assert(position_of(positions@, sym) == position_of(before, sym));
                    }
                }
            }
            i = i + 1;
        }
        proof {
            assert(ps@.subrange(0, ps@.len() as int) =~= ps@);
        }
        SimulatedAccount {
            cash: config.initial_cash(),
            positions,
            realized_pnl: Dec::zero(),
            fees_paid: Dec::zero(),
        }
    }

    /// Books a fill against the account. A buy must be covered by cash and a
    /// sell by the position it reduces: a sell never opens a short.
    pub fn apply_fill(&mut self, fill: &SimulationFill) -> (r: Result<(), SimulationError>)
        requires
            old(self).wf(),
        ensures
            final(self).wf(),
            r is Err ==> account_same(*old(self), *final(self)),
            fill.action == TradeAction::Hold ==> r == Err::<(), SimulationError>(SimulationError::HoldNotExecutable),
            fill.action == TradeAction::Buy ==> {
                &&& (r is Ok <==> buy_goes_through(*old(self), *fill))
                &&& (buy_total(*fill) is Some && units(buy_total(*fill)->0) > units(old(self).cash@)) ==> (r matches Err(
                    SimulationError::InsufficientFunds { required, available },
                ) && required@ == buy_total(*fill)->0 && available == old(self).cash)
            },
            fill.action == TradeAction::Sell ==> match position_of(old(self).positions@, fill.instrument@) {
                None => r == Err::<(), SimulationError>(
                    SimulationError::InsufficientInventory { requested: fill.quantity, available: Dec::spec_zero() },
                ),
                Some(e) => if units(fill.quantity@) > units(e.quantity@) {
                    r == Err::<(), SimulationError>(
                        SimulationError::InsufficientInventory { requested: fill.quantity, available: e.quantity },
                    )
                } else {
                    r is Ok <==> sell_goes_through(*old(self), e, *fill)
                },
            },
            r is Ok ==> booked(*old(self), *fill, *final(self)),
    {
        match fill.action {
            TradeAction::Buy => {
                let total_cost = checked_add(fill.gross_notional, fill.fee, "buy cash impact")?;
                if self.cash.lt(&total_cost) {
                    return Err(SimulationError::InsufficientFunds { required: total_cost, available: self.cash });
                }
                let new_cash = checked_sub(self.cash, total_cost, "buy cash balance")?;
                let new_fees_paid = checked_add(self.fees_paid, fill.fee, "fees paid")?;
                let position = match find_position(&self.positions, &fill.instrument) {
                    Some(k) => {
                        let existing = self.positions[k].clone();
                        let old_cost = existing.cost_basis()?;
                        let new_cost = checked_add(fill.gross_notional, fill.fee, "weighted entry cost")?;
                        let total_cost_basis = checked_add(old_cost, new_cost, "total cost basis")?;
                        let total_quantity = checked_add(existing.quantity, fill.quantity, "position quantity")?;
                        let average_entry_price = checked_div(total_cost_basis, total_quantity, "weighted entry price")?;
                        SimulatedPosition { quantity: total_quantity, average_entry_price, ..existing }
                    },
                    None => {
                        let cost = checked_add(fill.gross_notional, fill.fee, "initial entry cost")?;
                        let average_entry_price = checked_div(cost, fill.quantity, "initial entry price")?;
                        SimulatedPosition {
                            instrument: fill.instrument.clone(),
                            quantity: fill.quantity,
                            average_entry_price,
                            realized_pnl: Dec::zero(),
                        }
                    },
                };
                self.cash = new_cash;
                self.fees_paid = new_fees_paid;
                put_position(&mut self.positions, position);
                Ok(())
            },
            TradeAction::Sell => {
                let k = match find_position(&self.positions, &fill.instrument) {
                    Some(k) => k,
                    None => {
                        return Err(SimulationError::InsufficientInventory { requested: fill.quantity, available: Dec::zero() });
                    },
                };
                let existing = self.positions[k].clone();
                if existing.quantity.lt(&fill.quantity) {
                    return Err(SimulationError::InsufficientInventory { requested: fill.quantity, available: existing.quantity });
                }
                let proceeds = checked_sub(fill.gross_notional, fill.fee, "sell proceeds")?;
                let sold_cost = checked_mul(existing.average_entry_price, fill.quantity, "sold cost basis")?;
                let realized = checked_sub(proceeds, sold_cost, "realized PnL")?;
                let new_cash = checked_add(self.cash, proceeds, "sell cash balance")?;
                let new_realized_pnl = checked_add(self.realized_pnl, realized, "realized PnL")?;
                let new_fees_paid = checked_add(self.fees_paid, fill.fee, "fees paid")?;
                let remaining_quantity = checked_sub(existing.quantity, fill.quantity, "remaining position quantity")?;
                let remaining = if remaining_quantity.is_zero() {
                    None
                } else {
                    let pnl = checked_add(existing.realized_pnl, realized, "position realized PnL")?;
                    Some(SimulatedPosition { quantity: remaining_quantity, realized_pnl: pnl, ..existing })
                };
                self.cash = new_cash;
                self.realized_pnl = new_realized_pnl;
                self.fees_paid = new_fees_paid;
                match remaining {
                    Some(p) => put_position(&mut self.positions, p),
                    None => drop_position(&mut self.positions, k),
                }
                Ok(())
            },
            TradeAction::Hold => Err(SimulationError::HoldNotExecutable),
        }
    }
}

} // verus!
