//! The execution engine: order lifecycle records keyed by execution ID,
//! placement through a gateway, and reconciliation of uncertain states.

use vstd::prelude::*;

use crate::dec::{units, Dec};
use crate::domain::decisions::TradeAction;
use crate::risk::{is_approved_outcome, ApprovedIntent, RiskDecision};
use crate::timestamp::Timestamp;
use super::{
    ExecutionCheckpoint, ExecutionError, ExecutionGateway, ExecutionPlan, ExecutionPolicy,
    ExecutionReceipt, ExecutionState, GatewayOrderState, GatewayOrderStatus, GatewayPlacement,
    PlannedOrderType, PlannedSize,
};

verus! {

/// An execution whose outcome is unknown and which would add exposure: new
/// risk waits until it is reconciled.
pub open spec fn blocks_new_risk(c: ExecutionCheckpoint) -> bool {
    c.receipt.state == ExecutionState::Unknown && c.plan.risk_increasing
}

pub open spec fn any_blocking(s: Seq<ExecutionCheckpoint>) -> bool {
    exists|i: int| 0 <= i < s.len() && blocks_new_risk(#[trigger] s[i])
}

/// An execution whose outcome is unknown or whose cancellation is pending.
pub open spec fn in_doubt(c: ExecutionCheckpoint) -> bool {
    c.receipt.state == ExecutionState::Unknown || c.receipt.state == ExecutionState::CancelPending
}

/// Some record that is not in a terminal state carries this execution ID.
pub open spec fn open_id(s: Seq<ExecutionCheckpoint>, id: u128) -> bool {
    exists|m: int| 0 <= m < s.len() && !is_terminal((#[trigger] s[m]).receipt.state) && s[m].plan.execution_id == id
}

pub open spec fn any_in_doubt(s: Seq<ExecutionCheckpoint>) -> bool {
    exists|i: int| 0 <= i < s.len() && in_doubt(#[trigger] s[i])
}

/// Records are kept in ascending order of execution ID, one per ID.
pub open spec fn ids_ascending(s: Seq<ExecutionCheckpoint>) -> bool {
    forall|i: int, j: int|
        0 <= i < j < s.len() ==> (#[trigger] s[i]).plan.execution_id < (#[trigger] s[j]).plan.execution_id
}

/// The last checkpoint in `s` for the execution `id`.
pub open spec fn record_of(s: Seq<ExecutionCheckpoint>, id: u128) -> Option<ExecutionCheckpoint>
    decreases s.len(),
{
    if s.len() == 0 {
        None
    } else if s.last().plan.execution_id == id {
        Some(s.last())
    } else {
        record_of(s.drop_last(), id)
    }
}

/// A state that no further gateway report changes.
pub open spec fn is_terminal(st: ExecutionState) -> bool {
    st == ExecutionState::Filled || st == ExecutionState::Cancelled || st == ExecutionState::Rejected
}

/// The approved intent and the plan agree on instrument, side, mode,
/// protection and size.
pub open spec fn plan_matches_intent(i: ApprovedIntent, p: ExecutionPlan) -> bool {
    &&& i.instrument@ == p.instrument@
    &&& i.action == p.action
    &&& i.operating_mode == p.operating_mode
    &&& i.protective == p.protective
    &&& match (i.notional, i.quantity, p.size) {
        (Some(n), None, PlannedSize::Notional(a)) => units(n@) == units(a@),
        (None, Some(q), PlannedSize::Quantity(a)) => units(q@) == units(a@),
        _ => false,
    }
}

/// The refusal that comes before the gateway is consulted, if any.
pub open spec fn admission_error(
    records: Seq<ExecutionCheckpoint>,
    reconciled: bool,
    risk: RiskDecision,
    plan: ExecutionPlan,
) -> Option<ExecutionError> {
    if !is_approved_outcome(risk.outcome) {
        Some(ExecutionError::RiskNotApproved)
    } else if risk.risk_decision_id != plan.risk_decision_id || risk.decision_id != plan.decision_id {
        Some(ExecutionError::RiskPlanMismatch)
    } else if risk.approved_intent is None {
        Some(ExecutionError::RiskNotApproved)
    } else if !plan_matches_intent(risk.approved_intent->0, plan) {
        Some(ExecutionError::RiskPlanMismatch)
    } else if plan.risk_increasing && !(reconciled && !any_blocking(records)) {
        Some(ExecutionError::ReconciliationRequired)
    } else {
        None
    }
}

/// An unresolved risk-increasing execution on the same instrument.
pub open spec fn unresolved_on_instrument(s: Seq<ExecutionCheckpoint>, plan: ExecutionPlan) -> bool {
    exists|i: int|
        0 <= i < s.len() && (#[trigger] s[i]).receipt.state == ExecutionState::Unknown
            && s[i].plan.instrument@ == plan.instrument@ && s[i].plan.risk_increasing
}

/// Another execution already uses the plan's client order ID.
pub open spec fn client_id_taken(s: Seq<ExecutionCheckpoint>, plan: ExecutionPlan) -> bool {
    exists|i: int|
        0 <= i < s.len() && (#[trigger] s[i]).receipt.client_order_id@ == plan.client_order_id@
            && s[i].plan.execution_id != plan.execution_id
}

/// The refusal that comes from the records once the gateway is ready, if any.
pub open spec fn duplicate_error(s: Seq<ExecutionCheckpoint>, plan: ExecutionPlan) -> Option<ExecutionError> {
    if unresolved_on_instrument(s, plan) {
        Some(ExecutionError::UnresolvedDuplicate)
    } else if client_id_taken(s, plan) {
        Some(ExecutionError::DuplicateClientOrderId)
    } else if record_of(s, plan.execution_id) matches Some(c) && c.receipt.state == ExecutionState::Unknown {
        Some(ExecutionError::UnresolvedDuplicate)
    } else {
        None
    }
}

/// The receipt of a plan that has just been submitted.
pub open spec fn submitted_receipt(plan: ExecutionPlan) -> ExecutionReceipt {
    ExecutionReceipt {
        execution_id: plan.execution_id,
        client_order_id: plan.client_order_id,
        exchange_order_id: None,
        state: ExecutionState::Submitted,
        filled_quantity: Dec::spec_zero(),
        remaining_quantity: match plan.size {
            PlannedSize::Quantity(q) => Some(q),
            PlannedSize::Notional(_) => None,
        },
        average_price: None,
    }
}

/// The receipt of a submitted plan once the gateway has answered.
pub open spec fn placed_receipt(plan: ExecutionPlan, placement: GatewayPlacement) -> ExecutionReceipt {
    let base = submitted_receipt(plan);
    match placement {
        GatewayPlacement::Acknowledged { exchange_order_id } => ExecutionReceipt {
            state: ExecutionState::Acknowledged,
            exchange_order_id: Some(exchange_order_id),
            ..base
        },
        GatewayPlacement::Rejected { .. } => ExecutionReceipt { state: ExecutionState::Rejected, ..base },
        GatewayPlacement::Unknown { .. } => ExecutionReceipt { state: ExecutionState::Unknown, ..base },
    }
}

pub open spec fn state_for(s: GatewayOrderState) -> ExecutionState {
    match s {
        GatewayOrderState::Open => ExecutionState::Acknowledged,
        GatewayOrderState::PartiallyFilled => ExecutionState::PartiallyFilled,
        GatewayOrderState::Filled => ExecutionState::Filled,
        GatewayOrderState::Cancelled => ExecutionState::Cancelled,
        GatewayOrderState::Rejected => ExecutionState::Rejected,
        GatewayOrderState::Unknown => ExecutionState::Unknown,
    }
}

/// A receipt brought up to date with the gateway's report.
pub open spec fn reported_receipt(r: ExecutionReceipt, s: GatewayOrderStatus) -> ExecutionReceipt {
    ExecutionReceipt {
        state: state_for(s.state),
        filled_quantity: s.filled_quantity,
        remaining_quantity: s.remaining_quantity,
        average_price: s.average_price,
        ..r
    }
}

/// Each record keeps its plan, and no record comes or goes.
pub open spec fn plans_kept(before: Seq<ExecutionCheckpoint>, after: Seq<ExecutionCheckpoint>) -> bool {
    &&& after.len() == before.len()
    &&& forall|i: int| 0 <= i < before.len() ==> (#[trigger] after[i]).plan == before[i].plan
}

/// `s` with the checkpoint `c` stored under its execution ID.
pub open spec fn stored(s: Seq<ExecutionCheckpoint>, c: ExecutionCheckpoint, t: Seq<ExecutionCheckpoint>) -> bool {
    &&& ids_ascending(t)
    &&& record_of(t, c.plan.execution_id) == Some(c)
    &&& forall|id: u128| id != c.plan.execution_id ==> record_of(t, id) == #[trigger] record_of(s, id)
}

pub proof fn lemma_record_of_none(s: Seq<ExecutionCheckpoint>, id: u128)
    requires
        forall|i: int| 0 <= i < s.len() ==> (#[trigger] s[i]).plan.execution_id != id,
    ensures
        record_of(s, id) is None,
    decreases s.len(),
{
    if s.len() > 0 {
        assert(s.last() == s[s.len() - 1]);
        lemma_record_of_none(s.drop_last(), id);
    }
}

pub proof fn lemma_record_of_at(s: Seq<ExecutionCheckpoint>, k: int)
    requires
        ids_ascending(s),
        0 <= k < s.len(),
    ensures
        record_of(s, s[k].plan.execution_id) == Some(s[k]),
    decreases s.len(),
{
    if k < s.len() - 1 {
        assert(s.last() == s[s.len() - 1]);
        assert(s[k].plan.execution_id < s[s.len() - 1].plan.execution_id);
        let t = s.drop_last();
        assert(t[k] == s[k]);
        assert(ids_ascending(t)) by {
            assert forall|i: int, j: int| 0 <= i < j < t.len() implies (#[trigger] t[i]).plan.execution_id
                < (#[trigger] t[j]).plan.execution_id by {
                assert(t[i] == s[i] && t[j] == s[j]);
            }
        }
        lemma_record_of_at(t, k);
    }
}

/// The index of the record for `id`, if there is one.
fn find_record(records: &Vec<ExecutionCheckpoint>, id: u128) -> (k: Option<usize>)
    requires
        ids_ascending(records@),
    ensures
        k matches Some(i) ==> i < records@.len() && records@[i as int].plan.execution_id == id
            && record_of(records@, id) == Some(records@[i as int]),
        k is None ==> record_of(records@, id) is None && forall|i: int|
            0 <= i < records@.len() ==> (#[trigger] records@[i]).plan.execution_id != id,
{
    let mut i: usize = 0;
    while i < records.len()
        invariant
            i <= records@.len(),
            ids_ascending(records@),
            forall|j: int| 0 <= j < i ==> (#[trigger] records@[j]).plan.execution_id != id,
        decreases records.len() - i,
    {
        if records[i].plan.execution_id == id {
            proof {
                lemma_record_of_at(records@, i as int);
            }
            return Some(i);
        }
        i = i + 1;
    }
    proof {
        lemma_record_of_none(records@, id);
    }
    None
}

fn has_blocking(records: &Vec<ExecutionCheckpoint>) -> (b: bool)
    ensures
        b == any_blocking(records@),
{
    let mut i: usize = 0;
    while i < records.len()
        invariant
            i <= records@.len(),
            forall|j: int| 0 <= j < i ==> !blocks_new_risk(#[trigger] records@[j]),
        decreases records.len() - i,
    {
        if records[i].receipt.state == ExecutionState::Unknown && records[i].plan.risk_increasing {
            assert(blocks_new_risk(records@[i as int]));
            return true;
        }
        i = i + 1;
    }
    false
}

fn has_doubt(records: &Vec<ExecutionCheckpoint>) -> (b: bool)
    ensures
        b == any_in_doubt(records@),
        !b ==> !any_blocking(records@),
{
    let mut i: usize = 0;
    while i < records.len()
        invariant
            i <= records@.len(),
            forall|j: int| 0 <= j < i ==> !in_doubt(#[trigger] records@[j]),
        decreases records.len() - i,
    {
        let st = records[i].receipt.state;
        if st == ExecutionState::Unknown || st == ExecutionState::CancelPending {
            assert(in_doubt(records@[i as int]));
            return true;
        }
        i = i + 1;
    }
    assert forall|j: int| 0 <= j < records@.len() implies !blocks_new_risk(#[trigger] records@[j]) by {
        assert(!in_doubt(records@[j]));
    }
    false
}

/// Stores `c` under its execution ID, replacing an earlier record for it.
fn store_record(records: &mut Vec<ExecutionCheckpoint>, c: ExecutionCheckpoint)
    requires
        ids_ascending(old(records)@),
    ensures
        stored(old(records)@, c, final(records)@),
        final(records)@.len() <= old(records)@.len() + 1,
        record_of(old(records)@, c.plan.execution_id) matches Some(prev) && prev.plan == c.plan ==> plans_kept(
            old(records)@,
            final(records)@,
        ),
        record_of(old(records)@, c.plan.execution_id) is None ==> final(records)@.len() == old(records)@.len() + 1,
{
    let ghost s = records@;
    let id = c.plan.execution_id;
    let mut i: usize = 0;
    while i < records.len() && records[i].plan.execution_id < id
        invariant
            i <= records@.len(),
            records@ == s,
            forall|j: int| 0 <= j < i ==> (#[trigger] records@[j]).plan.execution_id < id,
        decreases records.len() - i,
    {
        i = i + 1;
    }
    if i < records.len() && records[i].plan.execution_id == id {
        records.set(i, c);
        let ghost t = records@;
        proof {
            assert(t == s.update(i as int, c));
            assert(ids_ascending(t)) by {
                assert forall|a: int, b: int| 0 <= a < b < t.len() implies (#[trigger] t[a]).plan.execution_id
                    < (#[trigger] t[b]).plan.execution_id by {
                    if a == i as int {
                        assert(s[i as int].plan.execution_id < s[b].plan.execution_id);
                    } else if b == i as int {
                        assert(s[a].plan.execution_id < s[i as int].plan.execution_id);
                    } else {
                        assert(t[a] == s[a] && t[b] == s[b]);
                    }
                }
            }
            lemma_record_of_at(t, i as int);
            lemma_record_of_at(s, i as int);
            assert forall|other: u128| other != id implies record_of(t, other) == #[trigger] record_of(s, other) by {
                if exists|k: int| 0 <= k < s.len() && s[k].plan.execution_id == other {
                    let k = choose|k: int| 0 <= k < s.len() && s[k].plan.execution_id == other;
                    assert(k != i as int);
                    assert(t[k] == s[k]);
                    lemma_record_of_at(s, k);
                    lemma_record_of_at(t, k);
                } else {
                    lemma_record_of_none(s, other);
                    assert forall|k: int| 0 <= k < t.len() implies (#[trigger] t[k]).plan.execution_id != other by {
                        if k != i as int {
                            assert(t[k] == s[k]);
                        }
                    }
                    lemma_record_of_none(t, other);
                }
            }
        }
    } else {
        records.insert(i, c);
        let ghost t = records@;
        proof {
            assert(t == s.insert(i as int, c));
            assert forall|k: int| i <= k < s.len() implies id < (#[trigger] s[k]).plan.execution_id by {
                if k > i as int {
                    assert(s[i as int].plan.execution_id < s[k].plan.execution_id);
                }
            }
            assert forall|k: int| 0 <= k < s.len() implies (#[trigger] s[k]).plan.execution_id != id by {
                if k < i as int {
                    assert(s[k].plan.execution_id < id);
                }
            }
            lemma_record_of_none(s, id);
            assert(ids_ascending(t)) by {
                assert forall|a: int, b: int| 0 <= a < b < t.len() implies (#[trigger] t[a]).plan.execution_id
                    < (#[trigger] t[b]).plan.execution_id by {
                    if a < i as int && b < i as int {
                        assert(t[a] == s[a] && t[b] == s[b]);
                    } else if a < i as int && b == i as int {
                        assert(t[a] == s[a]);
                    } else if a < i as int {
                        assert(t[a] == s[a] && t[b] == s[b - 1]);
                    } else if a == i as int {
                        assert(t[b] == s[b - 1]);
                    } else {
                        assert(t[a] == s[a - 1] && t[b] == s[b - 1]);
                    }
                }
            }
            lemma_record_of_at(t, i as int);
            assert forall|other: u128| other != id implies record_of(t, other) == #[trigger] record_of(s, other) by {
                if exists|k: int| 0 <= k < s.len() && s[k].plan.execution_id == other {
                    let k = choose|k: int| 0 <= k < s.len() && s[k].plan.execution_id == other;
                    lemma_record_of_at(s, k);
                    if k < i as int {
                        assert(t[k] == s[k]);
                        lemma_record_of_at(t, k);
                    } else {
                        assert(t[k + 1] == s[k]);
                        lemma_record_of_at(t, k + 1);
                    }
                } else {
                    lemma_record_of_none(s, other);
                    assert forall|k: int| 0 <= k < t.len() implies (#[trigger] t[k]).plan.execution_id != other by {
                        if k < i as int {
                            assert(t[k] == s[k]);
                        } else if k > i as int {
                            assert(t[k] == s[k - 1]);
                        }
                    }
                    lemma_record_of_none(t, other);
                }
            }
        }
    }
}

pub proof fn lemma_record_of_some(s: Seq<ExecutionCheckpoint>, id: u128)
    requires
        record_of(s, id) is Some,
    ensures
        exists|k: int| 0 <= k < s.len() && s[k] == record_of(s, id)->0 && s[k].plan.execution_id == id,
    decreases s.len(),
{
    if s.last().plan.execution_id == id {
        assert(s[s.len() - 1] == s.last());
    } else {
        let t = s.drop_last();
        lemma_record_of_some(t, id);
        let k = choose|k: int| 0 <= k < t.len() && t[k] == record_of(t, id)->0 && t[k].plan.execution_id == id;
        assert(s[k] == t[k]);
    }
}

/// Storing a checkpoint that does not block new risk into records of which
/// none does leaves none that does.
pub proof fn lemma_stored_not_blocking(s: Seq<ExecutionCheckpoint>, c: ExecutionCheckpoint, t: Seq<ExecutionCheckpoint>)
    requires
        stored(s, c, t),
        !any_blocking(s),
        !blocks_new_risk(c),
    ensures
        !any_blocking(t),
{
    assert forall|k: int| 0 <= k < t.len() implies !blocks_new_risk(#[trigger] t[k]) by {
        lemma_record_of_at(t, k);
        let x = t[k].plan.execution_id;
        if x != c.plan.execution_id {
            assert(record_of(t, x) == record_of(s, x));
            lemma_record_of_some(s, x);
        }
    }
}

/// Where the plans are kept, storing `c` changed the record for its ID alone.
pub proof fn lemma_stored_in_place(s: Seq<ExecutionCheckpoint>, c: ExecutionCheckpoint, t: Seq<ExecutionCheckpoint>)
    requires
        ids_ascending(s),
        stored(s, c, t),
        plans_kept(s, t),
    ensures
        forall|k: int| 0 <= k < s.len() && s[k].plan.execution_id != c.plan.execution_id ==> t[k] == #[trigger] s[k],
        forall|k: int| 0 <= k < s.len() && s[k].plan.execution_id == c.plan.execution_id ==> #[trigger] t[k] == c,
{
    assert forall|k: int| 0 <= k < s.len() implies (if s[k].plan.execution_id != c.plan.execution_id {
        t[k] == s[k]
    } else {
        t[k] == c
    }) by {
        assert(t[k].plan == s[k].plan);
        lemma_record_of_at(s, k);
        lemma_record_of_at(t, k);
    }
}

pub proof fn lemma_plans_kept_ascending(s: Seq<ExecutionCheckpoint>, t: Seq<ExecutionCheckpoint>)
    requires
        ids_ascending(s),
        plans_kept(s, t),
    ensures
        ids_ascending(t),
{
    assert forall|i: int, j: int| 0 <= i < j < t.len() implies (#[trigger] t[i]).plan.execution_id
        < (#[trigger] t[j]).plan.execution_id by {
        assert(t[i].plan == s[i].plan && t[j].plan == s[j].plan);
    }
}

/// The plan's approved intent agrees with it.
fn intent_matches_plan(i: &ApprovedIntent, p: &ExecutionPlan) -> (b: bool)
    ensures
        b == plan_matches_intent(*i, *p),
{
    let size_ok = match (i.notional, i.quantity, p.size) {
        (Some(n), None, PlannedSize::Notional(a)) => n.eq_value(&a),
        (None, Some(q), PlannedSize::Quantity(a)) => q.eq_value(&a),
        _ => false,
    };
    i.instrument.same_as(&p.instrument) && i.action == p.action && i.operating_mode == p.operating_mode
        && i.protective == p.protective && size_ok
}

fn has_unresolved_on_instrument(records: &Vec<ExecutionCheckpoint>, plan: &ExecutionPlan) -> (b: bool)
    ensures
        b == unresolved_on_instrument(records@, *plan),
{
    let mut i: usize = 0;
    while i < records.len()
        invariant
            i <= records@.len(),
            forall|j: int|
                0 <= j < i ==> !((#[trigger] records@[j]).receipt.state == ExecutionState::Unknown
                    && records@[j].plan.instrument@ == plan.instrument@ && records@[j].plan.risk_increasing),
        decreases records.len() - i,
    {
        let r = &records[i];
        if r.receipt.state == ExecutionState::Unknown && r.plan.instrument.same_as(&plan.instrument) && r.plan.risk_increasing {
            return true;
        }
        i = i + 1;
    }
    false
}

fn has_client_id_clash(records: &Vec<ExecutionCheckpoint>, plan: &ExecutionPlan) -> (b: bool)
    ensures
        b == client_id_taken(records@, *plan),
{
    let mut i: usize = 0;
    while i < records.len()
        invariant
            i <= records@.len(),
            forall|j: int|
                0 <= j < i ==> !((#[trigger] records@[j]).receipt.client_order_id@ == plan.client_order_id@
                    && records@[j].plan.execution_id != plan.execution_id),
        decreases records.len() - i,
    {
        let r = &records[i];
        if r.receipt.client_order_id == plan.client_order_id && r.plan.execution_id != plan.execution_id {
            return true;
        }
        i = i + 1;
    }
    false
}

/// The receipt of a plan once the gateway has answered its placement.
pub fn receipt_after_placement(plan: &ExecutionPlan, placement: GatewayPlacement) -> (r: ExecutionReceipt)
    ensures
        r == placed_receipt(*plan, placement),
{
    let remaining_quantity = match plan.size {
        PlannedSize::Quantity(q) => Some(q),
        PlannedSize::Notional(_) => None,
    };
    let (state, exchange_order_id) = match placement {
        GatewayPlacement::Acknowledged { exchange_order_id } => (ExecutionState::Acknowledged, Some(exchange_order_id)),
        GatewayPlacement::Rejected { .. } => (ExecutionState::Rejected, None),
        GatewayPlacement::Unknown { .. } => (ExecutionState::Unknown, None),
    };
    ExecutionReceipt {
        execution_id: plan.execution_id,
        client_order_id: plan.client_order_id.clone(),
        exchange_order_id,
        state,
        filled_quantity: Dec::zero(),
        remaining_quantity,
        average_price: None,
    }
}

/// A receipt brought up to date with a gateway status report.
pub fn apply_order_status(receipt: &ExecutionReceipt, status: &GatewayOrderStatus) -> (r: ExecutionReceipt)
    ensures
        r == reported_receipt(*receipt, *status),
{
    let state = match status.state {
        GatewayOrderState::Open => ExecutionState::Acknowledged,
        GatewayOrderState::PartiallyFilled => ExecutionState::PartiallyFilled,
        GatewayOrderState::Filled => ExecutionState::Filled,
        GatewayOrderState::Cancelled => ExecutionState::Cancelled,
        GatewayOrderState::Rejected => ExecutionState::Rejected,
        GatewayOrderState::Unknown => ExecutionState::Unknown,
    };
    let mut r = receipt.clone();
    r.state = state;
    r.filled_quantity = status.filled_quantity;
    r.remaining_quantity = status.remaining_quantity;
    r.average_price = status.average_price;
    r
}

/// Runs approved plans through a gateway and keeps one lifecycle record per
/// execution ID.
pub struct ExecutionEngine<G> {
    gateway: G,
    records: Vec<ExecutionCheckpoint>,
    reconciliation_complete: bool,
}

impl<G: ExecutionGateway> ExecutionEngine<G> {
    pub closed spec fn spec_records(&self) -> Seq<ExecutionCheckpoint> {
        self.records@
    }

    pub closed spec fn spec_reconciled(&self) -> bool {
        self.reconciliation_complete
    }

    pub closed spec fn spec_gateway(&self) -> G {
        self.gateway
    }

    /// Records ascend by execution ID, and a reconciled engine holds no
    /// unresolved risk-increasing execution.
    pub open spec fn wf(&self) -> bool {
        &&& ids_ascending(self.spec_records())
        &&& self.spec_reconciled() ==> !any_blocking(self.spec_records())
    }

    pub fn new(gateway: G) -> (e: Self)
        ensures
            e.wf(),
            e.spec_records() == Seq::<ExecutionCheckpoint>::empty(),
            e.spec_reconciled(),
            e.spec_gateway() == gateway,
    {
        ExecutionEngine { gateway, records: Vec::new(), reconciliation_complete: true }
    }

    /// An engine resumed from checkpoints: a later checkpoint for an
    /// execution replaces an earlier one, and new risk waits for
    /// reconciliation.
    pub fn restore(gateway: G, checkpoints: Vec<ExecutionCheckpoint>) -> (e: Self)
        ensures
            e.wf(),
            !e.spec_reconciled(),
            e.spec_gateway() == gateway,
            forall|id: u128| #[trigger] record_of(e.spec_records(), id) == record_of(checkpoints@, id),
    {
        let mut records: Vec<ExecutionCheckpoint> = Vec::new();
        let mut i: usize = 0;
        while i < checkpoints.len()
            invariant
                i <= checkpoints@.len(),
                ids_ascending(records@),
                forall|id: u128| #[trigger] record_of(records@, id) == record_of(checkpoints@.subrange(0, i as int), id),
            decreases checkpoints.len() - i,
        {
            let c = checkpoints[i].clone();
            let ghost before = records@;
            store_record(&mut records, c);
            proof {
                let t = checkpoints@.subrange(0, i + 1);
                assert(t.drop_last() =~= checkpoints@.subrange(0, i as int));
                assert(t.last() == c);
                assert forall|id: u128| #[trigger] record_of(records@, id) == record_of(t, id) by {
                    if id != c.plan.execution_id {
                        assert(record_of(records@, id) == record_of(before, id));
                    }
                }
            }
            i = i + 1;
        }
        proof {
            assert(checkpoints@.subrange(0, checkpoints@.len() as int) =~= checkpoints@);
        }
        ExecutionEngine { gateway, records, reconciliation_complete: false }
    }

    /// The records as checkpoints, in ascending order of execution ID.
    pub fn checkpoints(&self) -> (r: Vec<ExecutionCheckpoint>)
        ensures
            r@ == self.spec_records(),
    {
        let mut r: Vec<ExecutionCheckpoint> = Vec::new();
        let mut i: usize = 0;
        while i < self.records.len()
            invariant
                i <= self.records@.len(),
                r@ == self.records@.subrange(0, i as int),
            decreases self.records.len() - i,
        {
            r.push(self.records[i].clone());
            proof {
                assert(self.records@.subrange(0, i + 1) =~= self.records@.subrange(0, i as int).push(self.records@[i as int]));
            }
            i = i + 1;
        }
        proof {
            assert(self.records@.subrange(0, self.records@.len() as int) =~= self.records@);
        }
        r
    }

    pub fn gateway(&self) -> (g: &G)
        ensures
            *g == self.spec_gateway(),
    {
        &self.gateway
    }

    pub fn gateway_mut(&mut self) -> (g: &mut G)
        ensures
            *g == old(self).spec_gateway(),
            final(self).spec_records() == old(self).spec_records(),
            final(self).spec_reconciled() == old(self).spec_reconciled(),
            final(self).spec_gateway() == *final(g),
    {
        &mut self.gateway
    }

    /// New exposure is allowed once reconciliation is complete and no
    /// risk-increasing execution is in an unknown state.
    pub fn can_accept_new_risk(&self) -> (b: bool)
        ensures
            b == (self.spec_reconciled() && !any_blocking(self.spec_records())),
    {
        self.reconciliation_complete && !has_blocking(&self.records)
    }

    /// Places an approved plan through the gateway and records its receipt.
    /// A plan already recorded is not placed again: its receipt comes back,
    /// unless its outcome is unknown.
    pub fn execute(&mut self, risk: &RiskDecision, plan: ExecutionPlan) -> (r: Result<ExecutionReceipt, ExecutionError>)
        requires
            old(self).wf(),
        ensures
            final(self).wf(),
            admission_error(old(self).spec_records(), old(self).spec_reconciled(), *risk, plan) matches Some(e)
                ==> r == Err::<ExecutionReceipt, ExecutionError>(e) && *final(self) == *old(self),
            r == Err::<ExecutionReceipt, ExecutionError>(ExecutionError::EnvironmentMismatch) ==> old(self).spec_gateway().spec_mode()
                != plan.operating_mode,
            admission_error(old(self).spec_records(), old(self).spec_reconciled(), *risk, plan) is None
                && old(self).spec_gateway().spec_mode() != plan.operating_mode ==> r == Err::<ExecutionReceipt, ExecutionError>(
                ExecutionError::EnvironmentMismatch,
            ) && *final(self) == *old(self),
            admission_error(old(self).spec_records(), old(self).spec_reconciled(), *risk, plan) is None ==> {
                ||| r == Err::<ExecutionReceipt, ExecutionError>(ExecutionError::EnvironmentMismatch) && *final(self)
                    == *old(self)
                ||| r == Err::<ExecutionReceipt, ExecutionError>(ExecutionError::GatewayUnavailable)
                    && final(self).spec_records() == old(self).spec_records() && !final(self).spec_reconciled()
                    && final(self).spec_gateway() == old(self).spec_gateway()
                ||| match duplicate_error(old(self).spec_records(), plan) {
                    Some(e) => r == Err::<ExecutionReceipt, ExecutionError>(e) && *final(self) == *old(self),
                    None => match record_of(old(self).spec_records(), plan.execution_id) {
                        Some(c) => r == Ok::<ExecutionReceipt, ExecutionError>(c.receipt) && *final(self) == *old(self),
                        None => r matches Ok(rc) && (exists|p: GatewayPlacement| rc == #[trigger] placed_receipt(plan, p))
                            && stored(old(self).spec_records(), ExecutionCheckpoint { plan, receipt: rc }, final(self).spec_records())
                            && final(self).spec_records().len() == old(self).spec_records().len() + 1
                            && final(self).spec_reconciled() == (old(self).spec_reconciled() && rc.state != ExecutionState::Unknown),
                    },
                }
            },
    {
        if !risk.is_approved() {
            return Err(ExecutionError::RiskNotApproved);
        }
        if risk.risk_decision_id != plan.risk_decision_id || risk.decision_id != plan.decision_id {
            return Err(ExecutionError::RiskPlanMismatch);
        }
        let intent = match &risk.approved_intent {
            Some(i) => i,
            None => return Err(ExecutionError::RiskNotApproved),
        };
        if !intent_matches_plan(intent, &plan) {
            return Err(ExecutionError::RiskPlanMismatch);
        }
        if plan.risk_increasing && !self.can_accept_new_risk() {
            return Err(ExecutionError::ReconciliationRequired);
        }
        if self.gateway.operating_mode() != plan.operating_mode {
            return Err(ExecutionError::EnvironmentMismatch);
        }
        if !self.gateway.is_available() {
            self.reconciliation_complete = false;
            return Err(ExecutionError::GatewayUnavailable);
        }
        if has_unresolved_on_instrument(&self.records, &plan) {
            return Err(ExecutionError::UnresolvedDuplicate);
        }
        if has_client_id_clash(&self.records, &plan) {
            return Err(ExecutionError::DuplicateClientOrderId);
        }
        match find_record(&self.records, plan.execution_id) {
            Some(k) => {
                if self.records[k].receipt.state == ExecutionState::Unknown {
                    return Err(ExecutionError::UnresolvedDuplicate);
                }
                return Ok(self.records[k].receipt.clone());
            },
            None => {},
        }
        let placement = self.gateway.place(&plan);
        let ghost placed = placement;
        let receipt = receipt_after_placement(&plan, placement);
        assert(receipt == placed_receipt(plan, placed));
        if receipt.state == ExecutionState::Unknown {
            self.reconciliation_complete = false;
        }
        let ghost before = self.records@;
        let checkpoint = ExecutionCheckpoint { plan, receipt: receipt.clone() };
        store_record(&mut self.records, checkpoint);
        proof {
            if self.reconciliation_complete {
                lemma_stored_not_blocking(before, checkpoint, self.records@);
            }
        }
        Ok(receipt)
    }

    /// Brings the record of `execution_id` up to date with the gateway. A
    /// record in a terminal state is returned as it is.
    pub fn reconcile(&mut self, execution_id: u128) -> (r: Result<ExecutionReceipt, ExecutionError>)
        requires
            old(self).wf(),
        ensures
            final(self).wf(),
            plans_kept(old(self).spec_records(), final(self).spec_records()),
            forall|k: int|
                0 <= k < old(self).spec_records().len() && old(self).spec_records()[k].plan.execution_id != execution_id
                    ==> #[trigger] final(self).spec_records()[k] == old(self).spec_records()[k],
            match record_of(old(self).spec_records(), execution_id) {
                None => r == Err::<ExecutionReceipt, ExecutionError>(ExecutionError::NotFound(execution_id)) && *final(self)
                    == *old(self),
                Some(c) => if is_terminal(c.receipt.state) {
                    r == Ok::<ExecutionReceipt, ExecutionError>(c.receipt) && *final(self) == *old(self)
                } else {
                    ||| r is Err && final(self).spec_records() == old(self).spec_records() && final(self).spec_reconciled()
                        == old(self).spec_reconciled()
                    ||| r matches Ok(rc) && (exists|st: GatewayOrderStatus| rc == #[trigger] reported_receipt(c.receipt, st))
                        && record_of(final(self).spec_records(), execution_id) == Some(ExecutionCheckpoint { plan: c.plan, receipt: rc })
                        && final(self).spec_reconciled() == !any_blocking(final(self).spec_records())
                },
            },
    {
        let k = match find_record(&self.records, execution_id) {
            Some(k) => k,
            None => return Err(ExecutionError::NotFound(execution_id)),
        };
        let record = self.records[k].clone();
        if record.receipt.state == ExecutionState::Filled || record.receipt.state == ExecutionState::Cancelled
            || record.receipt.state == ExecutionState::Rejected {
            return Ok(record.receipt);
        }
        let status = match self.gateway.query(&record.plan.instrument, record.plan.client_order_id.as_str()) {
            Ok(s) => s,
            Err(e) => return Err(e),
        };
        let receipt = apply_order_status(&record.receipt, &status);
        let ghost before = self.records@;
        let updated = ExecutionCheckpoint { plan: record.plan, receipt: receipt.clone() };
        self.reconciliation_complete = false;
        store_record(&mut self.records, updated);
        proof {
            lemma_plans_kept_ascending(before, self.records@);
            lemma_stored_in_place(before, updated, self.records@);
        }
        self.reconciliation_complete = !has_blocking(&self.records);
        Ok(receipt)
    }

    /// Cancels a limit order that has outlived the policy's timeout and
    /// reconciles it.
    pub fn expire_limit(&mut self, execution_id: u128, now: Timestamp, policy: &ExecutionPolicy) -> (r: Result<ExecutionReceipt, ExecutionError>)
        requires
            old(self).wf(),
        ensures
            final(self).wf(),
            plans_kept(old(self).spec_records(), final(self).spec_records()),
            forall|k: int|
                0 <= k < old(self).spec_records().len() && old(self).spec_records()[k].plan.execution_id != execution_id
                    ==> #[trigger] final(self).spec_records()[k] == old(self).spec_records()[k],
            match record_of(old(self).spec_records(), execution_id) {
                None => r == Err::<ExecutionReceipt, ExecutionError>(ExecutionError::NotFound(execution_id)) && *final(self)
                    == *old(self),
                Some(c) => if !(c.plan.order_type is Limit) || now.unix_seconds - c.plan.created_at.unix_seconds
                    < policy.limit_order_timeout_secs {
                    r == Err::<ExecutionReceipt, ExecutionError>(ExecutionError::NotStale) && *final(self) == *old(self)
                } else if c.receipt.state == ExecutionState::Filled || c.receipt.state == ExecutionState::Cancelled {
                    r == Ok::<ExecutionReceipt, ExecutionError>(c.receipt) && *final(self) == *old(self)
                } else {
                    ||| r == Err::<ExecutionReceipt, ExecutionError>(ExecutionError::GatewayUnavailable)
                        && final(self).spec_records() == old(self).spec_records() && !final(self).spec_reconciled()
                    ||| r == Ok::<ExecutionReceipt, ExecutionError>(ExecutionReceipt { state: ExecutionState::Unknown, ..c.receipt })
                        && record_of(final(self).spec_records(), execution_id) == Some(ExecutionCheckpoint {
                            plan: c.plan,
                            receipt: ExecutionReceipt { state: ExecutionState::Unknown, ..c.receipt },
                        }) && !final(self).spec_reconciled()
                    ||| r is Err && record_of(final(self).spec_records(), execution_id) == Some(ExecutionCheckpoint {
                            plan: c.plan,
                            receipt: ExecutionReceipt { state: ExecutionState::CancelPending, ..c.receipt },
                        })
                    ||| r matches Ok(rc) && (exists|st: GatewayOrderStatus|
                            rc == #[trigger] reported_receipt(ExecutionReceipt { state: ExecutionState::CancelPending, ..c.receipt }, st))
                        && record_of(final(self).spec_records(), execution_id) == Some(ExecutionCheckpoint { plan: c.plan, receipt: rc })
                        && final(self).spec_reconciled() == !any_blocking(final(self).spec_records())
                },
            },
    {
        let k = match find_record(&self.records, execution_id) {
            Some(k) => k,
            None => return Err(ExecutionError::NotFound(execution_id)),
        };
        let record = self.records[k].clone();
        let is_limit = match record.plan.order_type {
            PlannedOrderType::Limit { .. } => true,
            PlannedOrderType::Market => false,
        };
        let age = (now.unix_timestamp() as i128) - (record.plan.created_at.unix_timestamp() as i128);
        if !is_limit || age < policy.limit_order_timeout_secs as i128 {
            return Err(ExecutionError::NotStale);
        }
        if record.receipt.state == ExecutionState::Filled || record.receipt.state == ExecutionState::Cancelled {
            return Ok(record.receipt);
        }
        if !self.gateway.is_available() {
            self.reconciliation_complete = false;
            return Err(ExecutionError::GatewayUnavailable);
        }
        let outcome = self.gateway.cancel(&record.plan.instrument, record.plan.client_order_id.as_str());
        let unknown = match outcome {
            GatewayPlacement::Unknown { .. } => true,
            _ => false,
        };
        let ghost before = self.records@;
        if unknown {
            let mut receipt = record.receipt.clone();
            receipt.state = ExecutionState::Unknown;
            let updated = ExecutionCheckpoint { plan: record.plan, receipt: receipt.clone() };
            self.reconciliation_complete = false;
            store_record(&mut self.records, updated);
            proof {
                lemma_plans_kept_ascending(before, self.records@);
                lemma_stored_in_place(before, updated, self.records@);
            }
            return Ok(receipt);
        }
        let mut receipt = record.receipt.clone();
        receipt.state = ExecutionState::CancelPending;
        let updated = ExecutionCheckpoint { plan: record.plan, receipt };
        store_record(&mut self.records, updated);
        proof {
            lemma_plans_kept_ascending(before, self.records@);
            lemma_stored_in_place(before, updated, self.records@);
            if self.reconciliation_complete {
                lemma_stored_not_blocking(before, updated, self.records@);
            }
        }
        let ghost middle = self.records@;
        proof {
            lemma_record_of_at(middle, k as int);
        }
        self.reconcile(execution_id)
    }

    /// Reconciles every record that is not in a terminal state. The result
    /// says whether no record is left unknown or waiting on a cancellation.
    pub fn startup_reconcile(&mut self) -> (r: Result<bool, ExecutionError>)
        requires
            old(self).wf(),
        ensures
            final(self).wf(),
            plans_kept(old(self).spec_records(), final(self).spec_records()),
            forall|k: int|
                0 <= k < old(self).spec_records().len() && is_terminal(old(self).spec_records()[k].receipt.state)
                    ==> #[trigger] final(self).spec_records()[k] == old(self).spec_records()[k],
            r matches Ok(b) ==> b == final(self).spec_reconciled() && b == !any_in_doubt(final(self).spec_records()),
    {
        self.reconciliation_complete = false;
        let mut ids: Vec<u128> = Vec::new();
        let mut i: usize = 0;
        while i < self.records.len()
            invariant
                i <= self.records@.len(),
                self.records@ == old(self).spec_records(),
                forall|q: int| 0 <= q < ids@.len() ==> open_id(self.records@, #[trigger] ids@[q]),
            decreases self.records.len() - i,
        {
            let st = self.records[i].receipt.state;
            if !(st == ExecutionState::Filled || st == ExecutionState::Cancelled || st == ExecutionState::Rejected) {
                assert(open_id(self.records@, self.records@[i as int].plan.execution_id));
                ids.push(self.records[i].plan.execution_id);
            }
            i = i + 1;
        }
        let ghost start = self.records@;
        let mut j: usize = 0;
        while j < ids.len()
            invariant
                self.wf(),
                start == old(self).spec_records(),
                plans_kept(start, self.records@),
                ids_ascending(start),
                forall|k: int| 0 <= k < start.len() && is_terminal(start[k].receipt.state)
                    ==> #[trigger] self.records@[k] == start[k],
                forall|q: int| 0 <= q < ids@.len() ==> open_id(start, #[trigger] ids@[q]),
            decreases ids.len() - j,
        {
            let id = ids[j];
            let ghost cur = self.records@;
            match self.reconcile(id) {
                Err(e) => {
                    proof {
                        assert forall|k: int| 0 <= k < start.len() && is_terminal(start[k].receipt.state)
                            implies #[trigger] self.records@[k] == start[k] by {
                            if start[k].plan.execution_id == id {
                                assert(open_id(start, ids@[j as int]));
                                let m = choose|m: int| 0 <= m < start.len() && !is_terminal((#[trigger] start[m]).receipt.state)
                                    && start[m].plan.execution_id == id;
                                assert(m == k);
                            }
                            assert(cur[k].plan == start[k].plan);
                        }
                        assert forall|i: int| 0 <= i < start.len() implies (#[trigger] self.records@[i]).plan == start[i].plan by {
                            assert(cur[i].plan == start[i].plan);
                        }
                    }
                    return Err(e);
                },
                Ok(_) => {},
            }
            proof {
                assert forall|k: int| 0 <= k < start.len() && is_terminal(start[k].receipt.state)
                    implies #[trigger] self.records@[k] == start[k] by {
                    if start[k].plan.execution_id == id {
                        assert(open_id(start, ids@[j as int]));
                        let m = choose|m: int| 0 <= m < start.len() && !is_terminal((#[trigger] start[m]).receipt.state)
                            && start[m].plan.execution_id == id;
                        assert(m == k);
                    }
                    assert(cur[k].plan == start[k].plan);
                }
                assert forall|i: int| 0 <= i < start.len() implies (#[trigger] self.records@[i]).plan == start[i].plan by {
                    assert(cur[i].plan == start[i].plan);
                }
            }
            j = j + 1;
        }
        let settled = !has_doubt(&self.records);
        self.reconciliation_complete = settled;
        Ok(settled)
    }
}

/// A risk-increasing plan that the risk engine approved is held back while any
/// risk-increasing execution is in an unknown state.
pub proof fn law_unknown_blocks_new_risk(
    records: Seq<ExecutionCheckpoint>,
    reconciled: bool,
    risk: RiskDecision,
    plan: ExecutionPlan,
)
    requires
        is_approved_outcome(risk.outcome),
        risk.risk_decision_id == plan.risk_decision_id,
        risk.decision_id == plan.decision_id,
        risk.approved_intent matches Some(i) && plan_matches_intent(i, plan),
        plan.risk_increasing,
        any_blocking(records),
    ensures
        admission_error(records, reconciled, risk, plan) == Some(ExecutionError::ReconciliationRequired),
{
}

/// After a restart, a risk-increasing plan waits until reconciliation has
/// completed, whatever the restored records hold.
pub proof fn law_restart_blocks_new_risk(records: Seq<ExecutionCheckpoint>, risk: RiskDecision, plan: ExecutionPlan)
    requires
        is_approved_outcome(risk.outcome),
        risk.risk_decision_id == plan.risk_decision_id,
        risk.decision_id == plan.decision_id,
        risk.approved_intent matches Some(i) && plan_matches_intent(i, plan),
        plan.risk_increasing,
    ensures
        admission_error(records, false, risk, plan) == Some(ExecutionError::ReconciliationRequired),
{
}

/// An execution whose outcome is unknown is never placed a second time: a
/// retry of the same plan is refused until it has been reconciled.
pub proof fn law_unknown_execution_not_retried(records: Seq<ExecutionCheckpoint>, plan: ExecutionPlan)
    requires
        record_of(records, plan.execution_id) matches Some(c) && c.receipt.state == ExecutionState::Unknown,
    ensures
        duplicate_error(records, plan) matches Some(e) && (e == ExecutionError::UnresolvedDuplicate || e
            == ExecutionError::DuplicateClientOrderId),
{
}

/// Protective and risk-reducing plans are not held back by unresolved
/// executions or a pending restart reconciliation.
pub proof fn law_risk_reduction_not_blocked(
    records: Seq<ExecutionCheckpoint>,
    reconciled: bool,
    risk: RiskDecision,
    plan: ExecutionPlan,
)
    requires
        is_approved_outcome(risk.outcome),
        risk.risk_decision_id == plan.risk_decision_id,
        risk.decision_id == plan.decision_id,
        risk.approved_intent matches Some(i) && plan_matches_intent(i, plan),
        !plan.risk_increasing,
    ensures
        admission_error(records, reconciled, risk, plan) is None,
{
}

} // verus!
