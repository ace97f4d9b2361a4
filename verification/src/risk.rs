//! Deterministic capital authority between proposed agent intent and execution.

use vstd::prelude::*;

use std::sync::{Arc, RwLock};

use crate::dec::{decimal_mul, decimal_sub, one_units, sub_fits, units, Dec, DecView, MAX_MANTISSA};
use crate::decision::MarketContext;
use crate::domain::decisions::{decision_check, TradeAction, TradeDecision};
use crate::domain::error::domain_error_text;
use crate::domain::instrument::{valid_symbol, Instrument};
use crate::domain::positions::{position_check, PositionState};
use crate::ids::{new_uuid_v4, DecisionId};
use crate::timestamp::{saturating_age, Timestamp};

verus! {

#[derive(Clone, Copy, Debug, PartialEq, Eq, Structural, Hash)]
pub enum OperatingMode {
    Simulation,
    Demo,
    Live,
}

#[derive(Clone, Copy, Debug, PartialEq, Eq, Structural, Hash)]
pub enum SafetyState {
    Normal,
    Safe,
    Killed,
}

#[verifier::external_type_specification]
#[verifier::external_body]
#[verifier::reject_recursive_types(T)]
pub struct ExRwLock<T: ?Sized>(RwLock<T>);

/// `RwLock::new`: a fresh lock around the value; nothing about the lock is
/// observable beyond what `read_safety_lock` reports.
pub assume_specification<T>[ std::sync::RwLock::<T>::new ](t: T) -> RwLock<T>;

/// A safety state shared by every clone of the store.
#[derive(Clone, Debug)]
pub struct SafetyStateStore {
    state: Arc<RwLock<SafetyState>>,
}

#[derive(Clone, Copy, Debug, PartialEq, Eq, Structural)]
pub enum SafetyStateStoreError {
    LockPoisoned,
}

/// `RwLock::read` followed by a copy of the guarded value; `None` when the lock
/// is poisoned. Other holders of the lock may change the value at any time, so
/// nothing is stated of it.
#[verifier::external_body]
fn read_safety_lock(lock: &Arc<RwLock<SafetyState>>) -> (r: Option<SafetyState>) {
    match lock.read() {
        Ok(guard) => Some(*guard),
        Err(_) => None,
    }
}

/// `RwLock::write` and a store of `state` through the guard; `false` when the
/// lock is poisoned, in which case nothing is written.
#[verifier::external_body]
fn write_safety_lock(lock: &Arc<RwLock<SafetyState>>, state: SafetyState) -> (ok: bool) {
    match lock.write() {
        Ok(mut guard) => {
            *guard = state;
            true
        },
        Err(_) => false,
    }
}

/// The state a read of the shared lock gives: what it holds, or `Killed`
/// where the lock could not be read, so that a fault never reads as
/// trading allowed.
pub open spec fn fail_closed_state(read: Option<SafetyState>) -> SafetyState {
    match read {
        Some(state) => state,
        None => SafetyState::Killed,
    }
}

pub fn fail_closed(read: Option<SafetyState>) -> (s: SafetyState)
    ensures
        s == fail_closed_state(read),
{
    match read {
        Some(state) => state,
        None => SafetyState::Killed,
    }
}

impl SafetyStateStore {
    pub fn new(initial: SafetyState) -> (s: SafetyStateStore) {
        SafetyStateStore { state: Arc::new(RwLock::new(initial)) }
    }

    /// The current state; `Killed` when the lock cannot be read.
    pub fn state(&self) -> (s: SafetyState)
        ensures
            exists|read: Option<SafetyState>| s == #[trigger] fail_closed_state(read),
    {
        fail_closed(read_safety_lock(&self.state))
    }

    pub fn set(&self, state: SafetyState) -> (r: Result<(), SafetyStateStoreError>)
        ensures
            r is Err ==> r == Err::<(), SafetyStateStoreError>(SafetyStateStoreError::LockPoisoned),
    {
        if write_safety_lock(&self.state, state) {
            Ok(())
        } else {
            Err(SafetyStateStoreError::LockPoisoned)
        }
    }

    /// Moves the store to `Killed`.
    pub fn kill(&self) -> (r: Result<SafetyState, SafetyStateStoreError>)
        ensures
            r is Ok ==> r == Ok::<SafetyState, SafetyStateStoreError>(SafetyState::Killed),
            r is Err ==> r == Err::<SafetyState, SafetyStateStoreError>(SafetyStateStoreError::LockPoisoned),
    {
        self.set(SafetyState::Killed)?;
        Ok(SafetyState::Killed)
    }
}

#[derive(Debug, PartialEq, Eq)]
pub enum RiskError {
    InvalidAccount(String),
    InvalidSnapshot(String),
}

#[derive(Clone, Copy, Debug, PartialEq, Eq)]
pub struct AccountState {
    pub cash: Dec,
    pub available_cash: Dec,
    pub equity: Dec,
}

impl AccountState {
    pub fn new(cash: Dec, available_cash: Dec, equity: Dec) -> (r: Result<AccountState, RiskError>)
        ensures
            r is Ok <==> (units(cash@) >= 0 && units(available_cash@) >= 0 && units(equity@) >= 0
                && units(available_cash@) <= units(cash@)),
            r matches Ok(a) ==> a.cash == cash && a.available_cash == available_cash && a.equity == equity,
            r matches Err(RiskError::InvalidAccount(m)) ==> m@ == (if units(cash@) < 0 || units(available_cash@) < 0
                || units(equity@) < 0 {
                "cash, available cash, and equity must not be negative"@
            } else {
                "available cash cannot exceed cash"@
            }),
            r matches Err(e) ==> e is InvalidAccount,
    {
        if cash.is_negative() || available_cash.is_negative() || equity.is_negative() {
            return Err(RiskError::InvalidAccount(String::from_str("cash, available cash, and equity must not be negative")));
        }
        if cash.lt(&available_cash) {
            return Err(RiskError::InvalidAccount(String::from_str("available cash cannot exceed cash")));
        }
        Ok(AccountState { cash, available_cash, equity })
    }
}

#[derive(Debug, PartialEq, Eq)]
pub struct UnresolvedExecution {
    pub instrument: Instrument,
    pub action: TradeAction,
    pub client_order_id: String,
}

impl UnresolvedExecution {
    pub fn new(instrument: Instrument, action: TradeAction, client_order_id: String) -> (u: UnresolvedExecution)
        ensures
            u == (UnresolvedExecution { instrument, action, client_order_id }),
    {
        UnresolvedExecution { instrument, action, client_order_id }
    }
}

#[derive(Debug, PartialEq, Eq)]
pub struct RiskSnapshot {
    pub evaluated_at: Timestamp,
    pub account: AccountState,
    pub positions: Vec<PositionState>,
    pub market: Option<MarketContext>,
    pub mode: OperatingMode,
    pub safety_state: SafetyState,
    pub unresolved_executions: Vec<UnresolvedExecution>,
    pub protective_exit: bool,
    pub add_evidence_qualified: bool,
    pub session_loss: Dec,
    pub session_drawdown: Dec,
}

/// The position at `k` repeats the instrument of an earlier position.
pub open spec fn position_repeats(ps: Seq<PositionState>, k: int) -> bool {
    exists|i: int| 0 <= i < k && ps[i].spec_instrument()@ == ps[k].spec_instrument()@
}

/// The position at `k` is the first one that fails validation or repeats an instrument.
pub open spec fn first_bad_position(ps: Seq<PositionState>, k: int) -> bool {
    &&& 0 <= k < ps.len()
    &&& (position_check(ps[k]) is Err || position_repeats(ps, k))
    &&& forall|j: int| 0 <= j < k ==> #[trigger] position_ok_at(ps, j)
}

pub open spec fn position_ok_at(ps: Seq<PositionState>, j: int) -> bool {
    position_check(ps[j]) is Ok && !position_repeats(ps, j)
}

pub open spec fn positions_ok(ps: Seq<PositionState>) -> bool {
    forall|j: int| 0 <= j < ps.len() ==> #[trigger] position_ok_at(ps, j)
}

/// Checks positions in order: each must be valid and hold a new instrument.
pub fn check_positions(positions: &Vec<PositionState>) -> (r: Result<(), String>)
    ensures
        r is Ok <==> positions_ok(positions@),
        r matches Err(m) ==> exists|k: int|
            first_bad_position(positions@, k) && m@ == (if position_check(positions@[k]) is Err {
                domain_error_text(position_check(positions@[k])->Err_0)
            } else {
                "duplicate position instrument"@
            }),
{
    let mut k: usize = 0;
    while k < positions.len()
        invariant
            k <= positions@.len(),
            forall|j: int| 0 <= j < k ==> #[trigger] position_ok_at(positions@, j),
        decreases positions@.len() - k,
    {
        match positions[k].validate() {
            Err(e) => {
                proof {
                    assert(first_bad_position(positions@, k as int));
                    assert(!position_ok_at(positions@, k as int));
                }
                return Err(e.message());
            },
            Ok(()) => {},
        }
        let mut i: usize = 0;
        while i < k
            invariant
                i <= k < positions@.len(),
                forall|j: int| 0 <= j < k ==> #[trigger] position_ok_at(positions@, j),
                position_check(positions@[k as int]) is Ok,
                forall|j: int| 0 <= j < i ==> positions@[j].spec_instrument()@ != positions@[k as int].spec_instrument()@,
            decreases k - i,
        {
            if positions[i].instrument().same_as(positions[k].instrument()) {
                proof {
                    assert(positions@[i as int].spec_instrument()@ == positions@[k as int].spec_instrument()@);
                    assert(position_repeats(positions@, k as int));
                    assert(first_bad_position(positions@, k as int));
                    assert(!position_ok_at(positions@, k as int));
                }
                return Err(String::from_str("duplicate position instrument"));
            }
            i = i + 1;
        }
        proof {
            assert(!position_repeats(positions@, k as int));
            assert(position_ok_at(positions@, k as int));
        }
        k = k + 1;
    }
    Ok(())
}

impl RiskSnapshot {
    pub fn new(
        evaluated_at: Timestamp,
        account: AccountState,
        positions: Vec<PositionState>,
        mode: OperatingMode,
        safety_state: SafetyState,
    ) -> (r: Result<RiskSnapshot, RiskError>)
        ensures
            r is Ok <==> positions_ok(positions@),
            r matches Ok(s) ==> s.evaluated_at == evaluated_at && s.account == account && s.positions@
                == positions@ && s.market is None && s.mode == mode && s.safety_state == safety_state
                && s.unresolved_executions@.len() == 0 && !s.protective_exit && !s.add_evidence_qualified
                && units(s.session_loss@) == 0 && units(s.session_drawdown@) == 0,
            r matches Err(RiskError::InvalidSnapshot(m)) ==> exists|k: int|
                first_bad_position(positions@, k) && m@ == (if position_check(positions@[k]) is Err {
                    domain_error_text(position_check(positions@[k])->Err_0)
                } else {
                    "duplicate position instrument"@
                }),
            r matches Err(e) ==> e is InvalidSnapshot,
    {
        match check_positions(&positions) {
            Err(m) => return Err(RiskError::InvalidSnapshot(m)),
            Ok(()) => {},
        }
        Ok(RiskSnapshot {
            evaluated_at,
            account,
            positions,
            market: None,
            mode,
            safety_state,
            unresolved_executions: Vec::new(),
            protective_exit: false,
            add_evidence_qualified: false,
            session_loss: Dec::zero(),
            session_drawdown: Dec::zero(),
        })
    }

    pub fn with_positions(self, positions: Vec<PositionState>) -> (s: RiskSnapshot)
        ensures
            s == (RiskSnapshot { positions, ..self }),
    {
        RiskSnapshot { positions, ..self }
    }

    pub fn with_market(self, market: MarketContext) -> (s: RiskSnapshot)
        ensures
            s == (RiskSnapshot { market: Some(market), ..self }),
    {
        RiskSnapshot { market: Some(market), ..self }
    }

    pub fn with_mode(self, mode: OperatingMode) -> (s: RiskSnapshot)
        ensures
            s == (RiskSnapshot { mode, ..self }),
    {
        RiskSnapshot { mode, ..self }
    }

    pub fn with_safety_state(self, state: SafetyState) -> (s: RiskSnapshot)
        ensures
            s == (RiskSnapshot { safety_state: state, ..self }),
    {
        RiskSnapshot { safety_state: state, ..self }
    }

    pub fn with_unresolved_execution(self, execution: UnresolvedExecution) -> (s: RiskSnapshot)
        ensures
            s.unresolved_executions@ == self.unresolved_executions@.push(execution),
            s == (RiskSnapshot { unresolved_executions: s.unresolved_executions, ..self }),
    {
        let mut snapshot = self;
        snapshot.unresolved_executions.push(execution);
        snapshot
    }

    pub fn with_protective_exit(self, protective: bool) -> (s: RiskSnapshot)
        ensures
            s == (RiskSnapshot { protective_exit: protective, ..self }),
    {
        RiskSnapshot { protective_exit: protective, ..self }
    }

    pub fn with_add_evidence_qualified(self, qualified: bool) -> (s: RiskSnapshot)
        ensures
            s == (RiskSnapshot { add_evidence_qualified: qualified, ..self }),
    {
        RiskSnapshot { add_evidence_qualified: qualified, ..self }
    }

    pub fn with_session_loss(self, value: Dec) -> (s: RiskSnapshot)
        ensures
            s == (RiskSnapshot { session_loss: value, ..self }),
    {
        RiskSnapshot { session_loss: value, ..self }
    }

    pub fn with_session_drawdown(self, value: Dec) -> (s: RiskSnapshot)
        ensures
            s == (RiskSnapshot { session_drawdown: value, ..self }),
    {
        RiskSnapshot { session_drawdown: value, ..self }
    }
}

#[derive(Clone, Copy, Debug, PartialEq, Eq)]
pub struct RiskConfig {
    pub max_open_positions: usize,
    pub max_decision_age_secs: i64,
    pub max_trade_notional: Option<Dec>,
    pub minimum_cash_reserve: Dec,
    pub max_session_loss: Option<Dec>,
    pub max_session_drawdown: Option<Dec>,
}

impl Default for RiskConfig {
    /// Three positions, five minutes of decision age, no notional cap and no reserve.
    fn default() -> (c: RiskConfig)
        ensures
            c.max_open_positions == 3,
            c.max_decision_age_secs == 300,
            c.max_trade_notional is None,
            units(c.minimum_cash_reserve@) == 0,
            c.minimum_cash_reserve@ == (0int, 0nat),
            c.max_session_loss is None,
            c.max_session_drawdown is None,
    {
        RiskConfig {
            max_open_positions: 3,
            max_decision_age_secs: 300,
            max_trade_notional: None,
            minimum_cash_reserve: Dec::zero(),
            max_session_loss: None,
            max_session_drawdown: None,
        }
    }
}

impl RiskConfig {
    pub fn with_max_open_positions(self, value: usize) -> (c: RiskConfig)
        ensures
            c == (RiskConfig { max_open_positions: value, ..self }),
    {
        RiskConfig { max_open_positions: value, ..self }
    }

    pub fn with_max_decision_age_secs(self, value: i64) -> (c: RiskConfig)
        ensures
            c == (RiskConfig { max_decision_age_secs: value, ..self }),
    {
        RiskConfig { max_decision_age_secs: value, ..self }
    }

    pub fn with_max_trade_notional(self, value: Dec) -> (c: RiskConfig)
        ensures
            c == (RiskConfig { max_trade_notional: Some(value), ..self }),
    {
        RiskConfig { max_trade_notional: Some(value), ..self }
    }

    pub fn with_minimum_cash_reserve(self, value: Dec) -> (c: RiskConfig)
        ensures
            c == (RiskConfig { minimum_cash_reserve: value, ..self }),
    {
        RiskConfig { minimum_cash_reserve: value, ..self }
    }

    pub fn with_max_session_loss(self, value: Dec) -> (c: RiskConfig)
        ensures
            c == (RiskConfig { max_session_loss: Some(value), ..self }),
    {
        RiskConfig { max_session_loss: Some(value), ..self }
    }

    pub fn with_max_session_drawdown(self, value: Dec) -> (c: RiskConfig)
        ensures
            c == (RiskConfig { max_session_drawdown: Some(value), ..self }),
    {
        RiskConfig { max_session_drawdown: Some(value), ..self }
    }
}

#[derive(Clone, Copy, Debug, PartialEq, Eq, Structural, Hash)]
pub enum RiskOutcome {
    NoAction,
    Approved,
    ApprovedWithConstraints,
    Rejected,
}

#[derive(Clone, Copy, Debug, PartialEq, Eq, Structural, Hash)]
pub enum RiskReasonCode {
    InsufficientFunds,
    InsufficientInventory,
    PositionLimitReached,
    DecisionStale,
    ExecutionStateUnknown,
    TradingKilled,
    TradingSafeMode,
    InvalidInstrument,
    InvalidOrderIntent,
    LiveExposureExceeded,
    ConstraintApplied,
    AddWithoutNewEvidence,
    SessionLossExceeded,
    SessionDrawdownExceeded,
}

#[derive(Debug, PartialEq, Eq)]
pub struct ApprovedIntent {
    pub decision_id: DecisionId,
    pub instrument: Instrument,
    pub action: TradeAction,
    pub operating_mode: OperatingMode,
    pub notional: Option<Dec>,
    pub quantity: Option<Dec>,
    pub protective: bool,
}

#[derive(Debug, PartialEq, Eq)]
pub struct RiskDecision {
    pub risk_decision_id: u128,
    pub decision_id: DecisionId,
    pub outcome: RiskOutcome,
    pub reasons: Vec<RiskReasonCode>,
    pub rules_evaluated: Vec<String>,
    pub evaluated_at: Timestamp,
    pub approved_intent: Option<ApprovedIntent>,
}

pub open spec fn is_approved_outcome(o: RiskOutcome) -> bool {
    o == RiskOutcome::Approved || o == RiskOutcome::ApprovedWithConstraints
}

impl RiskDecision {
    pub fn is_approved(&self) -> (b: bool)
        ensures
            b == is_approved_outcome(self.outcome),
    {
        match self.outcome {
            RiskOutcome::Approved | RiskOutcome::ApprovedWithConstraints => true,
            _ => false,
        }
    }
}

} // verus!

verus! {

/// The exec index `o` stands for the position `p`.
pub open spec fn index_is(o: Option<usize>, p: Option<int>) -> bool {
    match (o, p) {
        (Some(a), Some(b)) => a as int == b,
        (None, None) => true,
        _ => false,
    }
}

/// The index of the first position held in `inst`, searching from `k`.
pub open spec fn first_position_from(ps: Seq<PositionState>, inst: Seq<char>, k: int) -> Option<int>
    decreases ps.len() - k,
{
    if k < 0 || k >= ps.len() {
        None
    } else if ps[k].spec_instrument()@ == inst {
        Some(k)
    } else {
        first_position_from(ps, inst, k + 1)
    }
}

pub open spec fn position_for(ps: Seq<PositionState>, inst: Seq<char>) -> Option<int> {
    first_position_from(ps, inst, 0)
}

pub proof fn lemma_first_position_from(ps: Seq<PositionState>, inst: Seq<char>, k: int)
    requires
        0 <= k,
    ensures
        first_position_from(ps, inst, k) matches Some(j) ==> k <= j < ps.len() && ps[j].spec_instrument()@ == inst,
    decreases ps.len() - k,
{
    if k < ps.len() && ps[k].spec_instrument()@ != inst {
        lemma_first_position_from(ps, inst, k + 1);
    }
}

/// The number of open positions among the first `k`.
pub open spec fn open_count_prefix(ps: Seq<PositionState>, k: int) -> int
    decreases k,
{
    if k <= 0 {
        0
    } else {
        open_count_prefix(ps, k - 1) + (if ps[k - 1].spec_is_open() { 1int } else { 0int })
    }
}

pub open spec fn open_count(ps: Seq<PositionState>) -> int {
    open_count_prefix(ps, ps.len() as int)
}

pub open spec fn reason_if(b: bool, code: RiskReasonCode) -> Seq<RiskReasonCode> {
    if b {
        seq![code]
    } else {
        Seq::empty()
    }
}

/// A full exit of a position that the snapshot marks as protective.
pub open spec fn is_protective(d: TradeDecision, s: RiskSnapshot) -> bool {
    &&& s.protective_exit
    &&& d.action == TradeAction::Sell
    &&& d.desired_reduction_pct matches Some(r) && units(r@) == one_units()
}

pub open spec fn decision_age(d: TradeDecision, s: RiskSnapshot) -> int {
    saturating_age(d.created_at.unix_seconds as int, s.evaluated_at.unix_seconds as int)
}

pub open spec fn stale_reasons(c: RiskConfig, d: TradeDecision, s: RiskSnapshot) -> Seq<RiskReasonCode> {
    reason_if(decision_age(d, s) > c.max_decision_age_secs && !is_protective(d, s), RiskReasonCode::DecisionStale)
}

/// The open position that a SELL reduces, if any.
pub open spec fn sell_position(d: TradeDecision, s: RiskSnapshot) -> Option<PositionState> {
    match position_for(s.positions@, d.instrument@) {
        Some(k) => if s.positions@[k].spec_is_open() {
            Some(s.positions@[k])
        } else {
            None
        },
        None => None,
    }
}

/// The quantity that a SELL asks for: the position times the reduction.
pub open spec fn sell_quantity(d: TradeDecision, p: PositionState) -> DecView {
    decimal_mul(p.spec_quantity()->0@, d.desired_reduction_pct->0@)->0
}

pub open spec fn sell_quantity_ok(d: TradeDecision, p: PositionState) -> bool {
    0 < units(sell_quantity(d, p)) <= units(p.spec_quantity()->0@)
}

/// A BUY adds to a position that is already open.
pub open spec fn is_add(d: TradeDecision, s: RiskSnapshot) -> bool {
    match position_for(s.positions@, d.instrument@) {
        Some(k) => s.positions@[k].spec_is_open(),
        None => false,
    }
}

pub open spec fn unresolved_buy(d: TradeDecision, s: RiskSnapshot) -> bool {
    exists|i: int|
        0 <= i < s.unresolved_executions@.len() && s.unresolved_executions@[i].instrument@ == d.instrument@
            && s.unresolved_executions@[i].action == TradeAction::Buy
}

/// Reasons that block a BUY before capital is considered.
pub open spec fn buy_guard_reasons(c: RiskConfig, d: TradeDecision, s: RiskSnapshot) -> Seq<RiskReasonCode> {
    reason_if(c.max_session_loss matches Some(l) && units(s.session_loss@) >= units(l@), RiskReasonCode::SessionLossExceeded)
        + reason_if(c.max_session_drawdown matches Some(l) && units(s.session_drawdown@) >= units(l@), RiskReasonCode::SessionDrawdownExceeded)
        + reason_if(is_add(d, s) && !s.add_evidence_qualified, RiskReasonCode::AddWithoutNewEvidence)
        + reason_if(s.safety_state == SafetyState::Killed, RiskReasonCode::TradingKilled)
        + reason_if(s.safety_state == SafetyState::Safe, RiskReasonCode::TradingSafeMode)
        + reason_if(unresolved_buy(d, s), RiskReasonCode::ExecutionStateUnknown)
        + reason_if(!is_add(d, s) && open_count(s.positions@) >= c.max_open_positions, RiskReasonCode::PositionLimitReached)
}

/// Cash available for a BUY: available cash less the reserve.
pub open spec fn available_for_buy(c: RiskConfig, s: RiskSnapshot) -> DecView {
    decimal_sub(s.account.available_cash@, c.minimum_cash_reserve@)->0
}

pub open spec fn requested(d: TradeDecision) -> DecView {
    d.requested_notional->0@
}

pub open spec fn is_live(s: RiskSnapshot) -> bool {
    s.mode == OperatingMode::Live
}

pub open spec fn funds_reasons(c: RiskConfig, d: TradeDecision, s: RiskSnapshot) -> Seq<RiskReasonCode> {
    let avail = units(available_for_buy(c, s));
    if avail < units(requested(d)) {
        if is_live(s) && avail > 0 {
            seq![RiskReasonCode::ConstraintApplied]
        } else {
            seq![RiskReasonCode::InsufficientFunds]
        }
    } else {
        Seq::empty()
    }
}

/// A live BUY asks for more than the per-trade notional cap.
pub open spec fn exceeds_live_cap(c: RiskConfig, d: TradeDecision, s: RiskSnapshot) -> bool {
    is_live(s) && (c.max_trade_notional matches Some(l) && units(requested(d)) > units(l@))
}

pub open spec fn capped_notional(c: RiskConfig, d: TradeDecision, s: RiskSnapshot) -> DecView {
    if exceeds_live_cap(c, d, s) {
        c.max_trade_notional->0@
    } else {
        requested(d)
    }
}

pub open spec fn cut_to_available(c: RiskConfig, d: TradeDecision, s: RiskSnapshot) -> bool {
    let avail = units(available_for_buy(c, s));
    is_live(s) && units(capped_notional(c, d, s)) > avail && avail > 0
}

/// The notional a BUY is approved for.
pub open spec fn approved_notional(c: RiskConfig, d: TradeDecision, s: RiskSnapshot) -> DecView {
    if cut_to_available(c, d, s) {
        available_for_buy(c, s)
    } else {
        capped_notional(c, d, s)
    }
}

pub open spec fn buy_reasons(c: RiskConfig, d: TradeDecision, s: RiskSnapshot) -> Seq<RiskReasonCode> {
    stale_reasons(c, d, s) + buy_guard_reasons(c, d, s) + funds_reasons(c, d, s) + (if exceeds_live_cap(c, d, s) {
        seq![RiskReasonCode::LiveExposureExceeded, RiskReasonCode::ConstraintApplied]
    } else {
        Seq::empty()
    })
}

pub open spec fn only_live_constraints(reasons: Seq<RiskReasonCode>, s: RiskSnapshot) -> bool {
    is_live(s) && forall|i: int|
        0 <= i < reasons.len() ==> (#[trigger] reasons[i] == RiskReasonCode::ConstraintApplied || reasons[i]
            == RiskReasonCode::LiveExposureExceeded)
}

pub open spec fn buy_blocked(c: RiskConfig, d: TradeDecision, s: RiskSnapshot) -> bool {
    !(buy_reasons(c, d, s).len() == 0 || only_live_constraints(buy_reasons(c, d, s), s))
}

/// What the engine decides, as outcome, reasons and approved size.
pub open spec fn verdict_outcome(c: RiskConfig, d: TradeDecision, s: RiskSnapshot) -> RiskOutcome {
    if decision_check(d) is Err || !valid_symbol(d.instrument@) {
        RiskOutcome::Rejected
    } else if d.action == TradeAction::Hold {
        RiskOutcome::NoAction
    } else if d.action == TradeAction::Sell {
        match sell_position(d, s) {
            None => RiskOutcome::Rejected,
            Some(p) => if stale_reasons(c, d, s).len() == 0 && sell_quantity_ok(d, p) {
                RiskOutcome::Approved
            } else {
                RiskOutcome::Rejected
            },
        }
    } else if buy_blocked(c, d, s) || units(approved_notional(c, d, s)) <= 0 {
        RiskOutcome::Rejected
    } else if exceeds_live_cap(c, d, s) || cut_to_available(c, d, s) {
        RiskOutcome::ApprovedWithConstraints
    } else {
        RiskOutcome::Approved
    }
}

pub open spec fn verdict_reasons(c: RiskConfig, d: TradeDecision, s: RiskSnapshot) -> Seq<RiskReasonCode> {
    if decision_check(d) is Err || !valid_symbol(d.instrument@) {
        seq![RiskReasonCode::InvalidOrderIntent]
    } else if d.action == TradeAction::Hold {
        Seq::empty()
    } else if d.action == TradeAction::Sell {
        match sell_position(d, s) {
            None => stale_reasons(c, d, s).push(RiskReasonCode::InsufficientInventory),
            Some(p) => stale_reasons(c, d, s) + reason_if(!sell_quantity_ok(d, p), RiskReasonCode::InsufficientInventory),
        }
    } else if !buy_blocked(c, d, s) && units(approved_notional(c, d, s)) <= 0 {
        buy_reasons(c, d, s).push(RiskReasonCode::InsufficientFunds)
    } else {
        buy_reasons(c, d, s)
    }
}

/// The approved intent carries exactly the size the verdict allows.
pub open spec fn intent_matches(i: ApprovedIntent, c: RiskConfig, d: TradeDecision, s: RiskSnapshot) -> bool {
    &&& i.decision_id == d.decision_id
    &&& i.instrument@ == d.instrument@
    &&& i.action == d.action
    &&& i.operating_mode == s.mode
    &&& if d.action == TradeAction::Sell {
        &&& i.notional is None
        &&& i.quantity matches Some(q) && q@ == sell_quantity(d, sell_position(d, s)->0)
        &&& i.protective == is_protective(d, s)
    } else {
        &&& i.quantity is None
        &&& i.notional matches Some(n) && n@ == approved_notional(c, d, s)
        &&& !i.protective
    }
}

/// The names of the rules every evaluation reports.
pub open spec fn rule_names() -> Seq<Seq<char>> {
    seq![
        "decision_validation"@,
        "freshness"@,
        "spot_inventory"@,
        "position_limit"@,
        "unresolved_execution"@,
        "safety_state"@,
        "capital_availability"@,
    ]
}

/// The available cash less the reserve can be computed: the subtraction
/// does not overflow the decimal range (where it would, the evaluation
/// cannot proceed).
pub open spec fn evaluation_in_range(c: RiskConfig, s: RiskSnapshot) -> bool {
    decimal_sub(s.account.available_cash@, c.minimum_cash_reserve@) is Some
}

pub struct RiskEngine {
    config: RiskConfig,
}

impl RiskEngine {
    pub fn new(config: RiskConfig) -> (e: RiskEngine)
        ensures
            e.spec_config() == config,
    {
        RiskEngine { config }
    }

    pub closed spec fn spec_config(&self) -> RiskConfig {
        self.config
    }

    /// Decides whether the proposed intent may use capital, and how much.
    pub fn evaluate(&self, decision: &TradeDecision, snapshot: &RiskSnapshot) -> (r: RiskDecision)
        requires
            evaluation_in_range(self.spec_config(), *snapshot),
        ensures
            r.decision_id == decision.decision_id,
            r.evaluated_at == snapshot.evaluated_at,
            r.outcome == verdict_outcome(self.spec_config(), *decision, *snapshot),
            r.reasons@ == verdict_reasons(self.spec_config(), *decision, *snapshot),
            r.rules_evaluated@.map_values(|s: String| s@) == rule_names(),
            r.approved_intent is Some <==> is_approved_outcome(r.outcome),
            r.approved_intent matches Some(i) ==> intent_matches(i, self.spec_config(), *decision, *snapshot),
    {
        let config = &self.config;
        let rules_evaluated = rule_name_strings();
        let risk_decision_id = new_uuid_v4();
        let invalid = match decision.validate() {
            Err(_) => true,
            Ok(()) => decision.instrument.validate().is_err(),
        };
        if invalid {
            let mut reasons = Vec::new();
            reasons.push(RiskReasonCode::InvalidOrderIntent);
            return make_decision(risk_decision_id, decision, RiskOutcome::Rejected, reasons, rules_evaluated, snapshot.evaluated_at, None);
        }
        if decision.action == TradeAction::Hold {
            return make_decision(risk_decision_id, decision, RiskOutcome::NoAction, Vec::new(), rules_evaluated, snapshot.evaluated_at, None);
        }
        let position = find_position(&snapshot.positions, &decision.instrument);
        let one = Dec::one();
        let protective = snapshot.protective_exit && decision.action == TradeAction::Sell && match decision.desired_reduction_pct {
            Some(r) => r.eq_value(&one),
            None => false,
        };
        let age = snapshot.evaluated_at.seconds_since(&decision.created_at);
        let mut reasons: Vec<RiskReasonCode> = Vec::new();
        if age > config.max_decision_age_secs && !protective {
            reasons.push(RiskReasonCode::DecisionStale);
        }
        proof {
            assert(reasons@ =~= stale_reasons(*config, *decision, *snapshot));
        }
        if decision.action == TradeAction::Sell {
            return self.evaluate_sell(decision, snapshot, position, protective, reasons, risk_decision_id, rules_evaluated);
        }
        self.evaluate_buy(decision, snapshot, position, reasons, risk_decision_id, rules_evaluated)
    }

    fn evaluate_sell(
        &self,
        decision: &TradeDecision,
        snapshot: &RiskSnapshot,
        position: Option<usize>,
        protective: bool,
        reasons: Vec<RiskReasonCode>,
        risk_decision_id: u128,
        rules_evaluated: Vec<String>,
    ) -> (r: RiskDecision)
        requires
            decision_check(*decision) is Ok,
            valid_symbol(decision.instrument@),
            decision.action == TradeAction::Sell,
            index_is(position, position_for(snapshot.positions@, decision.instrument@)),
            protective == is_protective(*decision, *snapshot),
            reasons@ == stale_reasons(self.spec_config(), *decision, *snapshot),
            rules_evaluated@.map_values(|s: String| s@) == rule_names(),
        ensures
            r.decision_id == decision.decision_id,
            r.evaluated_at == snapshot.evaluated_at,
            r.outcome == verdict_outcome(self.spec_config(), *decision, *snapshot),
            r.reasons@ == verdict_reasons(self.spec_config(), *decision, *snapshot),
            r.rules_evaluated@.map_values(|s: String| s@) == rule_names(),
            r.approved_intent is Some <==> is_approved_outcome(r.outcome),
            r.approved_intent matches Some(i) ==> intent_matches(i, self.spec_config(), *decision, *snapshot),
    {
        let mut reasons = reasons;
        proof {
            lemma_first_position_from(snapshot.positions@, decision.instrument@, 0);
        }
        let open_position = match position {
            Some(k) => if snapshot.positions[k].is_open() { Some(k) } else { None },
            None => None,
        };
        let k = match open_position {
            None => {
                reasons.push(RiskReasonCode::InsufficientInventory);
                return make_decision(risk_decision_id, decision, RiskOutcome::Rejected, reasons, rules_evaluated, snapshot.evaluated_at, None);
            },
            Some(k) => k,
        };
        let held = snapshot.positions[k].quantity().unwrap();
        let reduction = decision.desired_reduction_pct.unwrap();
        let quantity = held.mul_fraction(&reduction);
        if !quantity.is_positive() || held.lt(&quantity) {
            reasons.push(RiskReasonCode::InsufficientInventory);
        }
        proof {
            let p = snapshot.positions@[k as int];
            assert(sell_position(*decision, *snapshot) == Some(p));
            assert(reasons@ =~= stale_reasons(self.spec_config(), *decision, *snapshot) + reason_if(!sell_quantity_ok(*decision, p), RiskReasonCode::InsufficientInventory));
        }
        if reasons.len() > 0 {
            return make_decision(risk_decision_id, decision, RiskOutcome::Rejected, reasons, rules_evaluated, snapshot.evaluated_at, None);
        }
        let intent = ApprovedIntent {
            decision_id: decision.decision_id,
            instrument: decision.instrument.clone(),
            action: TradeAction::Sell,
            operating_mode: snapshot.mode,
            notional: None,
            quantity: Some(quantity),
            protective,
        };
        make_decision(risk_decision_id, decision, RiskOutcome::Approved, reasons, rules_evaluated, snapshot.evaluated_at, Some(intent))
    }

    #[verifier::rlimit(60)]
    fn evaluate_buy(
        &self,
        decision: &TradeDecision,
        snapshot: &RiskSnapshot,
        position: Option<usize>,
        reasons: Vec<RiskReasonCode>,
        risk_decision_id: u128,
        rules_evaluated: Vec<String>,
    ) -> (r: RiskDecision)
        requires
            decision_check(*decision) is Ok,
            valid_symbol(decision.instrument@),
            decision.action == TradeAction::Buy,
            index_is(position, position_for(snapshot.positions@, decision.instrument@)),
            reasons@ == stale_reasons(self.spec_config(), *decision, *snapshot),
            rules_evaluated@.map_values(|s: String| s@) == rule_names(),
            evaluation_in_range(self.spec_config(), *snapshot),
        ensures
            r.decision_id == decision.decision_id,
            r.evaluated_at == snapshot.evaluated_at,
            r.outcome == verdict_outcome(self.spec_config(), *decision, *snapshot),
            r.reasons@ == verdict_reasons(self.spec_config(), *decision, *snapshot),
            r.rules_evaluated@.map_values(|s: String| s@) == rule_names(),
            r.approved_intent is Some <==> is_approved_outcome(r.outcome),
            r.approved_intent matches Some(i) ==> intent_matches(i, self.spec_config(), *decision, *snapshot),
    {
        let config = &self.config;
        let ghost c = *config;
        let ghost d = *decision;
        let ghost s = *snapshot;
        let mut reasons = reasons;
        push_guard_reasons(config, decision, snapshot, position, &mut reasons);
        let (approved, constrained) = size_buy(config, decision, snapshot, &mut reasons);
        let live = snapshot.mode == OperatingMode::Live;
        let only_live = live && all_live_constraints(&reasons);
        if !(reasons.len() == 0 || only_live) {
            return make_decision(risk_decision_id, decision, RiskOutcome::Rejected, reasons, rules_evaluated, snapshot.evaluated_at, None);
        }
        if !approved.is_positive() {
            reasons.push(RiskReasonCode::InsufficientFunds);
            return make_decision(risk_decision_id, decision, RiskOutcome::Rejected, reasons, rules_evaluated, snapshot.evaluated_at, None);
        }
        let intent = ApprovedIntent {
            decision_id: decision.decision_id,
            instrument: decision.instrument.clone(),
            action: TradeAction::Buy,
            operating_mode: snapshot.mode,
            notional: Some(approved),
            quantity: None,
            protective: false,
        };
        let outcome = if constrained { RiskOutcome::ApprovedWithConstraints } else { RiskOutcome::Approved };
        make_decision(risk_decision_id, decision, outcome, reasons, rules_evaluated, snapshot.evaluated_at, Some(intent))
    }
}

/// Sizes a BUY against available cash and the live notional cap, appending
/// the funding and exposure reasons.
fn size_buy(
    config: &RiskConfig,
    decision: &TradeDecision,
    snapshot: &RiskSnapshot,
    reasons: &mut Vec<RiskReasonCode>,
) -> (r: (Dec, bool))
    requires
        decision.requested_notional is Some,
        evaluation_in_range(*config, *snapshot),
    ensures
        final(reasons)@ == old(reasons)@ + funds_reasons(*config, *decision, *snapshot) + (if exceeds_live_cap(*config, *decision, *snapshot) {
            seq![RiskReasonCode::LiveExposureExceeded, RiskReasonCode::ConstraintApplied]
        } else {
            Seq::empty()
        }),
        r.0@ == approved_notional(*config, *decision, *snapshot),
        r.1 == (exceeds_live_cap(*config, *decision, *snapshot) || cut_to_available(*config, *decision, *snapshot)),
{
    let ghost start = reasons@;
    let requested = decision.requested_notional.unwrap();
    let available = match snapshot.account.available_cash.checked_sub(&config.minimum_cash_reserve) {
        Some(a) => a,
        None => {
            proof {
                assert(false);
            }
            Dec::zero()
        },
    };
    let live = snapshot.mode == OperatingMode::Live;
    if available.lt(&requested) {
        if live && available.is_positive() {
            reasons.push(RiskReasonCode::ConstraintApplied);
        } else {
            reasons.push(RiskReasonCode::InsufficientFunds);
        }
    }
    proof {
        assert(reasons@ =~= start + funds_reasons(*config, *decision, *snapshot));
    }
    let ghost mid = reasons@;
    let mut approved = requested;
    let mut constrained = false;
    if live {
        if let Some(limit) = config.max_trade_notional {
            if limit.lt(&approved) {
                approved = limit;
                constrained = true;
                reasons.push(RiskReasonCode::LiveExposureExceeded);
                reasons.push(RiskReasonCode::ConstraintApplied);
            }
        }
        if available.lt(&approved) && available.is_positive() {
            approved = available;
            constrained = true;
        }
    }
    proof {
        if exceeds_live_cap(*config, *decision, *snapshot) {
            assert(reasons@ =~= mid + seq![RiskReasonCode::LiveExposureExceeded, RiskReasonCode::ConstraintApplied]);
        } else {
            assert(reasons@ =~= mid + Seq::<RiskReasonCode>::empty());
        }
    }
    (approved, constrained)
}

/// Appends the reasons that block a BUY before capital is considered.
#[verifier::rlimit(60)]
fn push_guard_reasons(
    config: &RiskConfig,
    decision: &TradeDecision,
    snapshot: &RiskSnapshot,
    position: Option<usize>,
    reasons: &mut Vec<RiskReasonCode>,
)
    requires
        index_is(position, position_for(snapshot.positions@, decision.instrument@)),
    ensures
        final(reasons)@ == old(reasons)@ + buy_guard_reasons(*config, *decision, *snapshot),
{
    proof {
        lemma_first_position_from(snapshot.positions@, decision.instrument@, 0);
    }
    let ghost start = reasons@;
    let add = match position {
        Some(k) => snapshot.positions[k].is_open(),
        None => false,
    };
    let loss_exceeded = match config.max_session_loss {
        Some(limit) => limit.le(&snapshot.session_loss),
        None => false,
    };
    if loss_exceeded {
        reasons.push(RiskReasonCode::SessionLossExceeded);
    }
    let drawdown_exceeded = match config.max_session_drawdown {
        Some(limit) => limit.le(&snapshot.session_drawdown),
        None => false,
    };
    if drawdown_exceeded {
        reasons.push(RiskReasonCode::SessionDrawdownExceeded);
    }
    if add && !snapshot.add_evidence_qualified {
        reasons.push(RiskReasonCode::AddWithoutNewEvidence);
    }
    if snapshot.safety_state == SafetyState::Killed {
        reasons.push(RiskReasonCode::TradingKilled);
    } else if snapshot.safety_state == SafetyState::Safe {
        reasons.push(RiskReasonCode::TradingSafeMode);
    }
    if has_unresolved_buy(&snapshot.unresolved_executions, &decision.instrument) {
        reasons.push(RiskReasonCode::ExecutionStateUnknown);
    }
    if !add && count_open(&snapshot.positions) >= config.max_open_positions {
        reasons.push(RiskReasonCode::PositionLimitReached);
    }
    proof {
        assert(add == is_add(*decision, *snapshot));
        assert(reasons@ =~= start + buy_guard_reasons(*config, *decision, *snapshot));
    }
}

fn rule_name_strings() -> (v: Vec<String>)
    ensures
        v@.map_values(|s: String| s@) == rule_names(),
{
    let mut v: Vec<String> = Vec::new();
    v.push(String::from_str("decision_validation"));
    v.push(String::from_str("freshness"));
    v.push(String::from_str("spot_inventory"));
    v.push(String::from_str("position_limit"));
    v.push(String::from_str("unresolved_execution"));
    v.push(String::from_str("safety_state"));
    v.push(String::from_str("capital_availability"));
    proof {
        assert(v@.map_values(|s: String| s@) =~= rule_names());
    }
    v
}

fn make_decision(
    risk_decision_id: u128,
    decision: &TradeDecision,
    outcome: RiskOutcome,
    reasons: Vec<RiskReasonCode>,
    rules_evaluated: Vec<String>,
    evaluated_at: Timestamp,
    approved_intent: Option<ApprovedIntent>,
) -> (r: RiskDecision)
    ensures
        r == (RiskDecision {
            risk_decision_id,
            decision_id: decision.decision_id,
            outcome,
            reasons,
            rules_evaluated,
            evaluated_at,
            approved_intent,
        }),
{
    RiskDecision { risk_decision_id, decision_id: decision.decision_id, outcome, reasons, rules_evaluated, evaluated_at, approved_intent }
}

/// The index of the first position held in `instrument`.
pub fn find_position(positions: &Vec<PositionState>, instrument: &Instrument) -> (r: Option<usize>)
    ensures
        index_is(r, position_for(positions@, instrument@)),
{
    let mut k: usize = positions.len();
    let mut found: Option<usize> = None;
    while k > 0
        invariant
            k <= positions@.len(),
            index_is(found, first_position_from(positions@, instrument@, k as int)),
        decreases k,
    {
        k = k - 1;
        if positions[k].instrument().same_as(instrument) {
            found = Some(k);
        }
    }
    found
}

fn count_open(positions: &Vec<PositionState>) -> (n: usize)
    ensures
        n == open_count(positions@),
{
    let mut n: usize = 0;
    let mut k: usize = 0;
    while k < positions.len()
        invariant
            k <= positions@.len(),
            n == open_count_prefix(positions@, k as int),
            n <= k,
        decreases positions@.len() - k,
    {
        if positions[k].is_open() {
            n = n + 1;
        }
        k = k + 1;
    }
    n
}

fn has_unresolved_buy(executions: &Vec<UnresolvedExecution>, instrument: &Instrument) -> (b: bool)
    ensures
        b == exists|i: int|
            0 <= i < executions@.len() && executions@[i].instrument@ == instrument@ && executions@[i].action
                == TradeAction::Buy,
{
    let mut i: usize = 0;
    while i < executions.len()
        invariant
            i <= executions@.len(),
            forall|j: int|
                0 <= j < i ==> !(executions@[j].instrument@ == instrument@ && executions@[j].action == TradeAction::Buy),
        decreases executions@.len() - i,
    {
        if executions[i].instrument.same_as(instrument) && executions[i].action == TradeAction::Buy {
            return true;
        }
        i = i + 1;
    }
    false
}

fn all_live_constraints(reasons: &Vec<RiskReasonCode>) -> (b: bool)
    ensures
        b == forall|i: int|
            0 <= i < reasons@.len() ==> (#[trigger] reasons@[i] == RiskReasonCode::ConstraintApplied || reasons@[i]
                == RiskReasonCode::LiveExposureExceeded),
{
    let mut i: usize = 0;
    while i < reasons.len()
        invariant
            i <= reasons@.len(),
            forall|j: int|
                0 <= j < i ==> (#[trigger] reasons@[j] == RiskReasonCode::ConstraintApplied || reasons@[j]
                    == RiskReasonCode::LiveExposureExceeded),
        decreases reasons@.len() - i,
    {
        if !(reasons[i] == RiskReasonCode::ConstraintApplied || reasons[i] == RiskReasonCode::LiveExposureExceeded) {
            return false;
        }
        i = i + 1;
    }
    true
}

} // verus!

verus! {

/// A HOLD that passes validation is never approved: it is answered with no action.
pub proof fn law_hold_is_no_action(c: RiskConfig, d: TradeDecision, s: RiskSnapshot)
    requires
        decision_check(d) is Ok,
        valid_symbol(d.instrument@),
        d.action == TradeAction::Hold,
    ensures
        verdict_outcome(c, d, s) == RiskOutcome::NoAction,
        verdict_reasons(c, d, s).len() == 0,
{
}

/// A decision that fails validation is rejected as an invalid order intent.
pub proof fn law_invalid_decision_rejected(c: RiskConfig, d: TradeDecision, s: RiskSnapshot)
    requires
        decision_check(d) is Err || !valid_symbol(d.instrument@),
    ensures
        verdict_outcome(c, d, s) == RiskOutcome::Rejected,
        verdict_reasons(c, d, s) == seq![RiskReasonCode::InvalidOrderIntent],
{
}

/// An approved SELL reduces existing spot inventory by a positive quantity no
/// larger than the position, so it can never open a short.
pub proof fn law_sell_never_exceeds_inventory(c: RiskConfig, d: TradeDecision, s: RiskSnapshot)
    requires
        d.action == TradeAction::Sell,
        is_approved_outcome(verdict_outcome(c, d, s)),
    ensures
        sell_position(d, s) is Some,
        sell_position(d, s)->0.spec_is_open(),
        0 < units(sell_quantity(d, sell_position(d, s)->0)) <= units(sell_position(d, s)->0.spec_quantity()->0@),
{
}

/// A SELL without an open position in its instrument is rejected for
/// insufficient inventory.
pub proof fn law_sell_without_position_rejected(c: RiskConfig, d: TradeDecision, s: RiskSnapshot)
    requires
        decision_check(d) is Ok,
        valid_symbol(d.instrument@),
        d.action == TradeAction::Sell,
        sell_position(d, s) is None,
    ensures
        verdict_outcome(c, d, s) == RiskOutcome::Rejected,
        verdict_reasons(c, d, s).last() == RiskReasonCode::InsufficientInventory,
{
}

/// While trading is killed or in safe mode, no BUY is approved.
#[verifier::rlimit(100)]
pub proof fn law_no_buy_when_not_normal(c: RiskConfig, d: TradeDecision, s: RiskSnapshot)
    requires
        d.action == TradeAction::Buy,
        s.safety_state != SafetyState::Normal,
    ensures
        verdict_outcome(c, d, s) == RiskOutcome::Rejected,
{
    let g = buy_guard_reasons(c, d, s);
    let r = buy_reasons(c, d, s);
    if decision_check(d) is Ok && valid_symbol(d.instrument@) {
        let code = if s.safety_state == SafetyState::Killed {
            RiskReasonCode::TradingKilled
        } else {
            RiskReasonCode::TradingSafeMode
        };
        let prefix = reason_if(c.max_session_loss matches Some(l) && units(s.session_loss@) >= units(l@), RiskReasonCode::SessionLossExceeded)
            + reason_if(c.max_session_drawdown matches Some(l) && units(s.session_drawdown@) >= units(l@), RiskReasonCode::SessionDrawdownExceeded)
            + reason_if(is_add(d, s) && !s.add_evidence_qualified, RiskReasonCode::AddWithoutNewEvidence);
        let idx = stale_reasons(c, d, s).len() + prefix.len();
        assert(r[idx as int] == code);
        assert(r.len() > 0);
    }
}

/// A BUY in an instrument with an unresolved BUY execution is not approved
/// until that execution is reconciled.
#[verifier::rlimit(100)]
pub proof fn law_unresolved_buy_blocks_buy(c: RiskConfig, d: TradeDecision, s: RiskSnapshot)
    requires
        d.action == TradeAction::Buy,
        unresolved_buy(d, s),
    ensures
        verdict_outcome(c, d, s) == RiskOutcome::Rejected,
{
    if decision_check(d) is Ok && valid_symbol(d.instrument@) {
        let r = buy_reasons(c, d, s);
        let prefix = stale_reasons(c, d, s)
            + reason_if(c.max_session_loss matches Some(l) && units(s.session_loss@) >= units(l@), RiskReasonCode::SessionLossExceeded)
            + reason_if(c.max_session_drawdown matches Some(l) && units(s.session_drawdown@) >= units(l@), RiskReasonCode::SessionDrawdownExceeded)
            + reason_if(is_add(d, s) && !s.add_evidence_qualified, RiskReasonCode::AddWithoutNewEvidence)
            + reason_if(s.safety_state == SafetyState::Killed, RiskReasonCode::TradingKilled)
            + reason_if(s.safety_state == SafetyState::Safe, RiskReasonCode::TradingSafeMode);
        assert(r[prefix.len() as int] == RiskReasonCode::ExecutionStateUnknown);
    }
}

/// A new entry is refused once the open positions reach the configured limit.
pub proof fn law_position_limit(c: RiskConfig, d: TradeDecision, s: RiskSnapshot)
    requires
        d.action == TradeAction::Buy,
        !is_add(d, s),
        open_count(s.positions@) >= c.max_open_positions,
    ensures
        verdict_outcome(c, d, s) == RiskOutcome::Rejected,
{
    if decision_check(d) is Ok && valid_symbol(d.instrument@) {
        let r = buy_reasons(c, d, s);
        let prefix = stale_reasons(c, d, s)
            + reason_if(c.max_session_loss matches Some(l) && units(s.session_loss@) >= units(l@), RiskReasonCode::SessionLossExceeded)
            + reason_if(c.max_session_drawdown matches Some(l) && units(s.session_drawdown@) >= units(l@), RiskReasonCode::SessionDrawdownExceeded)
            + reason_if(is_add(d, s) && !s.add_evidence_qualified, RiskReasonCode::AddWithoutNewEvidence)
            + reason_if(s.safety_state == SafetyState::Killed, RiskReasonCode::TradingKilled)
            + reason_if(s.safety_state == SafetyState::Safe, RiskReasonCode::TradingSafeMode)
            + reason_if(unresolved_buy(d, s), RiskReasonCode::ExecutionStateUnknown);
        assert(r[prefix.len() as int] == RiskReasonCode::PositionLimitReached);
    }
}

/// An approved BUY commits a positive notional that never exceeds the
/// requested notional; outside LIVE it is exactly the request and fits the
/// available cash after the reserve.
pub proof fn law_buy_notional_bounded(c: RiskConfig, d: TradeDecision, s: RiskSnapshot)
    requires
        d.action == TradeAction::Buy,
        is_approved_outcome(verdict_outcome(c, d, s)),
    ensures
        0 < units(approved_notional(c, d, s)) <= units(requested(d)),
        !is_live(s) ==> approved_notional(c, d, s) == requested(d) && units(requested(d)) <= units(
            available_for_buy(c, s),
        ),
{
    let r = buy_reasons(c, d, s);
    if !is_live(s) {
        if units(available_for_buy(c, s)) < units(requested(d)) {
            assert(funds_reasons(c, d, s) == seq![RiskReasonCode::InsufficientFunds]);
            let pre = stale_reasons(c, d, s) + buy_guard_reasons(c, d, s);
            assert(r[pre.len() as int] == RiskReasonCode::InsufficientFunds);
        }
    }
}

proof fn lemma_concat_lacks(a: Seq<RiskReasonCode>, b: Seq<RiskReasonCode>, x: RiskReasonCode)
    requires
        !a.contains(x),
        !b.contains(x),
    ensures
        !(a + b).contains(x),
{
    if (a + b).contains(x) {
        let i = choose|i: int| 0 <= i < (a + b).len() && (a + b)[i] == x;
        if i < a.len() {
            assert(a[i] == x);
        } else {
            assert(b[i - a.len()] == x);
        }
    }
}

proof fn lemma_reason_if_lacks(b: bool, code: RiskReasonCode, x: RiskReasonCode)
    requires
        code != x,
    ensures
        !reason_if(b, code).contains(x),
{
    if reason_if(b, code).contains(x) {
        let i = choose|i: int| 0 <= i < reason_if(b, code).len() && reason_if(b, code)[i] == x;
        assert(reason_if(b, code)[i] == code);
    }
}

/// A valid BUY or SELL created more than the configured age before the
/// evaluation is refused, and the refusal names it stale, unless it is the
/// full exit of a position the snapshot marks as protective.
pub proof fn stale_decision_is_refused(c: RiskConfig, d: TradeDecision, s: RiskSnapshot)
    requires
        decision_check(d) is Ok,
        valid_symbol(d.instrument@),
        d.action != TradeAction::Hold,
        c.max_decision_age_secs < i64::MAX,
        s.evaluated_at.unix_seconds - d.created_at.unix_seconds > c.max_decision_age_secs,
        !s.protective_exit || d.action != TradeAction::Sell || match d.desired_reduction_pct {
            Some(r) => units(r@) != one_units(),
            None => true,
        },
    ensures
        verdict_outcome(c, d, s) == RiskOutcome::Rejected,
        verdict_reasons(c, d, s).contains(RiskReasonCode::DecisionStale),
{
    assert(stale_reasons(c, d, s) == seq![RiskReasonCode::DecisionStale]);
    if d.action == TradeAction::Buy {
        let br = buy_reasons(c, d, s);
        assert(br[0] == RiskReasonCode::DecisionStale);
        assert(!only_live_constraints(br, s));
        assert(br.contains(RiskReasonCode::DecisionStale));
    } else {
        match sell_position(d, s) {
            None => {
                assert(verdict_reasons(c, d, s)[0] == RiskReasonCode::DecisionStale);
            },
            Some(p) => {
                assert(verdict_reasons(c, d, s)[0] == RiskReasonCode::DecisionStale);
            },
        }
    }
}

/// A decision evaluated within the configured age of its creation is
/// never called stale.
pub proof fn fresh_decision_is_not_stale(c: RiskConfig, d: TradeDecision, s: RiskSnapshot)
    requires
        0 <= s.evaluated_at.unix_seconds - d.created_at.unix_seconds <= c.max_decision_age_secs,
    ensures
        !verdict_reasons(c, d, s).contains(RiskReasonCode::DecisionStale),
{
    let x = RiskReasonCode::DecisionStale;
    assert(stale_reasons(c, d, s) == Seq::<RiskReasonCode>::empty());
    assert(!stale_reasons(c, d, s).contains(x));
    lemma_reason_if_lacks(true, RiskReasonCode::InvalidOrderIntent, x);
    assert(seq![RiskReasonCode::InvalidOrderIntent] == reason_if(true, RiskReasonCode::InvalidOrderIntent));
    lemma_reason_if_lacks(true, RiskReasonCode::InsufficientInventory, x);
    lemma_reason_if_lacks(true, RiskReasonCode::InsufficientFunds, x);
    lemma_reason_if_lacks(true, RiskReasonCode::ConstraintApplied, x);
    if d.action == TradeAction::Sell {
        match sell_position(d, s) {
            None => {
                assert(stale_reasons(c, d, s).push(RiskReasonCode::InsufficientInventory) =~= reason_if(
                    true,
                    RiskReasonCode::InsufficientInventory,
                ));
            },
            Some(p) => {
                lemma_reason_if_lacks(!sell_quantity_ok(d, p), RiskReasonCode::InsufficientInventory, x);
                lemma_concat_lacks(stale_reasons(c, d, s), reason_if(!sell_quantity_ok(d, p), RiskReasonCode::InsufficientInventory), x);
            },
        }
    }
    let g1 = reason_if(c.max_session_loss matches Some(l) && units(s.session_loss@) >= units(l@), RiskReasonCode::SessionLossExceeded);
    let g2 = reason_if(c.max_session_drawdown matches Some(l) && units(s.session_drawdown@) >= units(l@), RiskReasonCode::SessionDrawdownExceeded);
    let g3 = reason_if(is_add(d, s) && !s.add_evidence_qualified, RiskReasonCode::AddWithoutNewEvidence);
    let g4 = reason_if(s.safety_state == SafetyState::Killed, RiskReasonCode::TradingKilled);
    let g5 = reason_if(s.safety_state == SafetyState::Safe, RiskReasonCode::TradingSafeMode);
    let g6 = reason_if(unresolved_buy(d, s), RiskReasonCode::ExecutionStateUnknown);
    let g7 = reason_if(!is_add(d, s) && open_count(s.positions@) >= c.max_open_positions, RiskReasonCode::PositionLimitReached);
    lemma_reason_if_lacks(c.max_session_loss matches Some(l) && units(s.session_loss@) >= units(l@), RiskReasonCode::SessionLossExceeded, x);
    lemma_reason_if_lacks(c.max_session_drawdown matches Some(l) && units(s.session_drawdown@) >= units(l@), RiskReasonCode::SessionDrawdownExceeded, x);
    lemma_reason_if_lacks(is_add(d, s) && !s.add_evidence_qualified, RiskReasonCode::AddWithoutNewEvidence, x);
    lemma_reason_if_lacks(s.safety_state == SafetyState::Killed, RiskReasonCode::TradingKilled, x);
    lemma_reason_if_lacks(s.safety_state == SafetyState::Safe, RiskReasonCode::TradingSafeMode, x);
    lemma_reason_if_lacks(unresolved_buy(d, s), RiskReasonCode::ExecutionStateUnknown, x);
    lemma_reason_if_lacks(!is_add(d, s) && open_count(s.positions@) >= c.max_open_positions, RiskReasonCode::PositionLimitReached, x);
    lemma_concat_lacks(g1, g2, x);
    lemma_concat_lacks(g1 + g2, g3, x);
    lemma_concat_lacks(g1 + g2 + g3, g4, x);
    lemma_concat_lacks(g1 + g2 + g3 + g4, g5, x);
    lemma_concat_lacks(g1 + g2 + g3 + g4 + g5, g6, x);
    lemma_concat_lacks(g1 + g2 + g3 + g4 + g5 + g6, g7, x);
    assert(buy_guard_reasons(c, d, s) == g1 + g2 + g3 + g4 + g5 + g6 + g7);
    let f = funds_reasons(c, d, s);
    assert(!f.contains(x)) by {
        if f.len() > 0 {
            assert(f.len() == 1);
            assert(f[0] != x);
        }
    }
    let live: Seq<RiskReasonCode> = if exceeds_live_cap(c, d, s) {
        seq![RiskReasonCode::LiveExposureExceeded, RiskReasonCode::ConstraintApplied]
    } else {
        Seq::empty()
    };
    assert(!live.contains(x)) by {
        if live.contains(x) {
            let i = choose|i: int| 0 <= i < live.len() && live[i] == x;
        }
    }
    lemma_concat_lacks(stale_reasons(c, d, s), buy_guard_reasons(c, d, s), x);
    lemma_concat_lacks(stale_reasons(c, d, s) + buy_guard_reasons(c, d, s), f, x);
    lemma_concat_lacks(stale_reasons(c, d, s) + buy_guard_reasons(c, d, s) + f, live, x);
    assert(buy_reasons(c, d, s) == stale_reasons(c, d, s) + buy_guard_reasons(c, d, s) + f + live);
    lemma_concat_lacks(buy_reasons(c, d, s), seq![RiskReasonCode::InsufficientFunds], x);
    assert(seq![RiskReasonCode::InsufficientFunds] == reason_if(true, RiskReasonCode::InsufficientFunds));
    assert(buy_reasons(c, d, s).push(RiskReasonCode::InsufficientFunds) =~= buy_reasons(c, d, s) + seq![RiskReasonCode::InsufficientFunds]);
}

} // verus!
