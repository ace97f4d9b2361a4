//! Deterministic coordination around the agent: attention ranking, bounded
//! research planning, and validation of the returned proposed intents.

use vstd::prelude::*;
use vstd::multiset::Multiset;

use crate::dec::{units, Dec};
use crate::domain::decisions::TradeAction;
use crate::domain::error::{domain_error_text, DomainError};
use crate::domain::instrument::{lemma_lex_total, lemma_lex_transitive, lex_lt, valid_symbol, Instrument};
use crate::domain::positions::{position_check, PositionState};
use crate::domain::universe::TradingUniverse;
use crate::hermes::ValidatedAgentDecision;
use crate::ids::{DecisionId, EvidenceId};
use crate::intelligence::events::EventFingerprint;
use crate::intelligence::evidence::{evidence_fault, evidence_same, AssetImpact, IntelligenceEvidence, IntelligenceSource};
use crate::intelligence::intelligence_error_text;
use crate::intelligence::health::SourceHealthRegistry;
use crate::intelligence::query::BoundedEvidenceQuery;
use crate::intelligence::service::IntelligenceSnapshot;
use crate::intelligence::sources::SourceError;
use crate::text::concat;
use crate::timestamp::Timestamp;

pub mod orchestrator;
pub mod ranking;

pub use orchestrator::{
    AgentDecisionRequest, DecisionCycleResult, DecisionObserver, DecisionOrchestrator, DecisionProposal, DecisionProvider,
    ProposalKind, ResearchPlanningContext, ResearchProvider, ResearchSourcePlanner,
};
pub use ranking::RankedOpportunityContext;





verus! {

broadcast use vstd::seq_lib::group_to_multiset_ensures;

#[derive(Debug, PartialEq, Eq)]
pub enum DecisionError {
    InvalidContext(String),
    Ranking(DomainError),
    Observer(String),
}

#[derive(Debug, PartialEq, Eq)]
pub struct MarketContext {
    pub instrument: Instrument,
    pub observed_at: Timestamp,
    pub bid: Dec,
    pub ask: Dec,
    pub last: Dec,
    pub recent_move_pct: Option<Dec>,
    pub volume: Option<Dec>,
    pub volatility: Option<Dec>,
}

impl MarketContext {
    pub fn new(instrument: Instrument, observed_at: Timestamp, bid: Dec, ask: Dec, last: Dec) -> (r: Result<MarketContext, DecisionError>)
        ensures
            r is Ok <==> (units(bid@) > 0 && units(ask@) > 0 && units(last@) > 0 && units(bid@) <= units(ask@)
                && valid_symbol(instrument@)),
            r matches Ok(m) ==> m.instrument == instrument && m.observed_at == observed_at && m.bid == bid
                && m.ask == ask && m.last == last && m.recent_move_pct is None && m.volume is None
                && m.volatility is None,
            r matches Err(DecisionError::InvalidContext(msg)) ==> msg@ == (if !(units(bid@) > 0 && units(ask@) > 0
                && units(last@) > 0) {
                "market prices must be greater than zero"@
            } else if units(bid@) > units(ask@) {
                "market bid cannot exceed ask"@
            } else {
                domain_error_text(DomainError::InvalidInstrument)
            }),
            r matches Err(e) ==> e is InvalidContext,
    {
        if !bid.is_positive() || !ask.is_positive() || !last.is_positive() {
            return Err(DecisionError::InvalidContext(String::from_str("market prices must be greater than zero")));
        }
        if ask.lt(&bid) {
            return Err(DecisionError::InvalidContext(String::from_str("market bid cannot exceed ask")));
        }
        match instrument.validate() {
            Ok(()) => {},
            Err(e) => return Err(DecisionError::InvalidContext(e.message())),
        }
        Ok(MarketContext {
            instrument,
            observed_at,
            bid,
            ask,
            last,
            recent_move_pct: None,
            volume: None,
            volatility: None,
        })
    }
}

#[derive(Debug, PartialEq, Eq)]
pub enum DecisionTrigger {
    OpportunityScan { reason: String },
    EventTriggered { fingerprint: EventFingerprint, instruments: Vec<Instrument> },
    PositionReview { instrument: Instrument, reason: String },
}

/// The first position, from `i` on, that is refused: an invalid position,
/// or one whose instrument an earlier position already holds.
pub open spec fn snapshot_fault(ps: Seq<PositionState>, i: int) -> Option<Seq<char>>
    decreases ps.len() - i,
{
    if i < 0 || i >= ps.len() {
        None
    } else if position_check(ps[i]) is Err {
        Some(domain_error_text(position_check(ps[i])->Err_0))
    } else if exists|j: int| 0 <= j < i && (#[trigger] ps[j].spec_instrument())@ == ps[i].spec_instrument()@ {
        Some("duplicate position instrument: "@ + ps[i].spec_instrument()@)
    } else {
        snapshot_fault(ps, i + 1)
    }
}

/// The index of the first position in the instrument.
pub open spec fn position_index(ps: Seq<PositionState>, sym: Seq<char>, i: int) -> Option<int>
    decreases ps.len() - i,
{
    if i < 0 || i >= ps.len() {
        None
    } else if ps[i].spec_instrument()@ == sym {
        Some(i)
    } else {
        position_index(ps, sym, i + 1)
    }
}

#[derive(Debug, PartialEq, Eq)]
pub struct PositionSnapshot {
    as_of: Timestamp,
    positions: Vec<PositionState>,
}

impl PositionSnapshot {
    pub closed spec fn spec_as_of(&self) -> Timestamp {
        self.as_of
    }

    pub closed spec fn spec_positions(&self) -> Seq<PositionState> {
        self.positions@
    }

    /// Positions as of a time; each must be valid and each instrument held
    /// once.
    pub fn new(as_of: Timestamp, positions: Vec<PositionState>) -> (r: Result<PositionSnapshot, DecisionError>)
        ensures
            r is Ok <==> snapshot_fault(positions@, 0) is None,
            r matches Ok(s) ==> s.spec_as_of() == as_of && s.spec_positions() == positions@,
            r matches Err(e) ==> e matches DecisionError::InvalidContext(m) && Some(m@) == snapshot_fault(positions@, 0),
    {
        let mut i: usize = 0;
        while i < positions.len()
            invariant
                i <= positions@.len(),
                snapshot_fault(positions@, 0) == snapshot_fault(positions@, i as int),
            decreases positions.len() - i,
        {
            match positions[i].validate() {
                Ok(()) => {},
                Err(e) => {
                    return Err(DecisionError::InvalidContext(e.message()));
                },
            }
            let mut j: usize = 0;
            while j < i
                invariant
                    i < positions@.len(),
                    j <= i,
                    position_check(positions@[i as int]) is Ok,
                    snapshot_fault(positions@, 0) == snapshot_fault(positions@, i as int),
                    forall|k: int| 0 <= k < j ==> (#[trigger] positions@[k].spec_instrument())@ != positions@[i as int].spec_instrument()@,
                decreases i - j,
            {
                if positions[j].instrument().same_as(positions[i].instrument()) {
                    proof {
                        assert((positions@[j as int].spec_instrument())@ == positions@[i as int].spec_instrument()@);
                    }
                    let symbol = positions[i].instrument().to_symbol_string();
                    return Err(DecisionError::InvalidContext(concat("duplicate position instrument: ", symbol.as_str())));
                }
                j = j + 1;
            }
            i = i + 1;
        }
        Ok(PositionSnapshot { as_of, positions })
    }

    pub fn as_of(&self) -> (t: Timestamp)
        ensures
            t == self.spec_as_of(),
    {
        self.as_of
    }

    pub fn positions(&self) -> (p: &Vec<PositionState>)
        ensures
            p@ == self.spec_positions(),
    {
        &self.positions
    }

    /// The position held in the instrument, where there is one.
    pub fn for_instrument(&self, instrument: &Instrument) -> (r: Option<&PositionState>)
        ensures
            match position_index(self.spec_positions(), instrument@, 0) {
                Some(k) => r matches Some(p) && *p == self.spec_positions()[k],
                None => r is None,
            },
    {
        let mut i: usize = 0;
        while i < self.positions.len()
            invariant
                i <= self.positions@.len(),
                position_index(self.positions@, instrument@, 0) == position_index(self.positions@, instrument@, i as int),
            decreases self.positions.len() - i,
        {
            if self.positions[i].instrument().same_as(instrument) {
                return Some(&self.positions[i]);
            }
            i = i + 1;
        }
        None
    }
}

/// The identifiers a sequence of evidence identifiers holds.
pub open spec fn id_set(s: Seq<EvidenceId>) -> Set<u128> {
    Set::new(|x: u128| exists|i: int| 0 <= i < s.len() && s[i].0 == x)
}

fn holds_id(v: &Vec<EvidenceId>, x: u128) -> (b: bool)
    ensures
        b == id_set(v@).contains(x),
{
    let mut i: usize = 0;
    while i < v.len()
        invariant
            i <= v@.len(),
            forall|k: int| 0 <= k < i ==> v@[k].0 != x,
        decreases v.len() - i,
    {
        if v[i].0 == x {
            return true;
        }
        i = i + 1;
    }
    false
}

/// The evidence identifiers of a list, each once, in first-seen order.
pub fn distinct_ids(v: &Vec<EvidenceId>) -> (r: Vec<EvidenceId>)
    ensures
        id_set(r@) == id_set(v@),
        forall|a: int, b: int| 0 <= a < b < r@.len() ==> r@[a].0 != r@[b].0,
{
    let mut r: Vec<EvidenceId> = Vec::new();
    let mut i: usize = 0;
    while i < v.len()
        invariant
            i <= v@.len(),
            id_set(r@) == id_set(v@.subrange(0, i as int)),
            forall|a: int, b: int| 0 <= a < b < r@.len() ==> r@[a].0 != r@[b].0,
        decreases v.len() - i,
    {
        let x = v[i];
        let ghost before = r@;
        if !holds_id(&r, x.0) {
            r.push(x);
        }
        proof {
            let pre = v@.subrange(0, i as int);
            let post = v@.subrange(0, i + 1);
            assert(id_set(r@) =~= id_set(post)) by {
                assert forall|y: u128| id_set(r@).contains(y) <==> id_set(post).contains(y) by {
                    if id_set(post).contains(y) {
                        let k = choose|k: int| 0 <= k < post.len() && post[k].0 == y;
                        if k < i as int {
                            assert(pre[k].0 == y);
                            assert(id_set(before).contains(y));
                            let m = choose|m: int| 0 <= m < before.len() && before[m].0 == y;
                            assert(r@[m].0 == y);
                        } else if r@.len() > before.len() {
                            assert(r@[before.len() as int].0 == y);
                        } else {
                            assert(id_set(before).contains(y));
                        }
                    }
                    if id_set(r@).contains(y) {
                        let m = choose|m: int| 0 <= m < r@.len() && r@[m].0 == y;
                        if m < before.len() {
                            assert(id_set(before).contains(y));
                            let k = choose|k: int| 0 <= k < pre.len() && pre[k].0 == y;
                            assert(post[k].0 == y);
                        } else {
                            assert(post[i as int].0 == y);
                        }
                    }
                }
            }
        }
        i = i + 1;
    }
    proof {
        assert(v@.subrange(0, v@.len() as int) =~= v@);
    }
    r
}

#[derive(Debug, PartialEq, Eq)]
pub struct PriorDecision {
    pub decision_id: DecisionId,
    pub instrument: Instrument,
    pub action: TradeAction,
    pub evidence_ids: Vec<EvidenceId>,
}

/// The identifiers of the evidence a decision cites.
pub open spec fn cited_ids(d: crate::domain::decisions::TradeDecision) -> Set<u128> {
    Set::new(
        |x: u128| exists|i: int| 0 <= i < d.evidence_refs@.len() && (#[trigger] d.evidence_refs@[i]).evidence_id.0 == x,
    )
}

impl PriorDecision {
    /// A decision already processed: its instrument, action and the set of
    /// evidence it cited.
    pub fn new(decision_id: DecisionId, instrument: Instrument, action: TradeAction, evidence_ids: Vec<EvidenceId>) -> (p: PriorDecision)
        ensures
            p.decision_id == decision_id,
            p.instrument == instrument,
            p.action == action,
            id_set(p.evidence_ids@) == id_set(evidence_ids@),
            forall|a: int, b: int| 0 <= a < b < p.evidence_ids@.len() ==> p.evidence_ids@[a].0 != p.evidence_ids@[b].0,
    {
        PriorDecision { decision_id, instrument, action, evidence_ids: distinct_ids(&evidence_ids) }
    }

    /// Whether the decision repeats this one: the same instrument and action
    /// on the same set of evidence.
    pub fn matches(&self, decision: &ValidatedAgentDecision) -> (b: bool)
        ensures
            b == (self.instrument@ == decision.spec_decision().instrument@ && self.action
                == decision.spec_decision().action && id_set(self.evidence_ids@) == cited_ids(decision.spec_decision())),
    {
        let proposed = decision.decision();
        if !self.instrument.same_as(&proposed.instrument) || self.action != proposed.action {
            return false;
        }
        let refs = &proposed.evidence_refs;
        let mut i: usize = 0;
        while i < refs.len()
            invariant
                i <= refs@.len(),
                refs@ == proposed.evidence_refs@,
                *proposed == decision.spec_decision(),
                self.instrument@ == decision.spec_decision().instrument@,
                self.action == decision.spec_decision().action,
                forall|k: int| 0 <= k < i ==> id_set(self.evidence_ids@).contains((#[trigger] refs@[k]).evidence_id.0),
            decreases refs.len() - i,
        {
            if !holds_id(&self.evidence_ids, refs[i].evidence_id.0) {
                proof {
                    assert(cited_ids(*proposed).contains(refs@[i as int].evidence_id.0));
                    assert(!id_set(self.evidence_ids@).contains(refs@[i as int].evidence_id.0));
                }
                return false;
            }
            i = i + 1;
        }
        let mut j: usize = 0;
        while j < self.evidence_ids.len()
            invariant
                j <= self.evidence_ids@.len(),
                refs@ == proposed.evidence_refs@,
                *proposed == decision.spec_decision(),
                self.instrument@ == decision.spec_decision().instrument@,
                self.action == decision.spec_decision().action,
                forall|k: int| 0 <= k < refs@.len() ==> id_set(self.evidence_ids@).contains((#[trigger] refs@[k]).evidence_id.0),
                forall|k: int| 0 <= k < j ==> cited_ids(*proposed).contains((#[trigger] self.evidence_ids@[k]).0),
            decreases self.evidence_ids.len() - j,
        {
            let x = self.evidence_ids[j].0;
            let mut found = false;
            let mut k: usize = 0;
            while k < refs.len()
                invariant
                    k <= refs@.len(),
                    refs@ == proposed.evidence_refs@,
                    j < self.evidence_ids@.len(),
                    x == self.evidence_ids@[j as int].0,
                    found ==> cited_ids(*proposed).contains(x),
                    !found ==> forall|m: int| 0 <= m < k ==> (#[trigger] refs@[m]).evidence_id.0 != x,
                decreases refs.len() - k,
            {
                if refs[k].evidence_id.0 == x {
                    proof {
                        assert(cited_ids(*proposed).contains(refs@[k as int].evidence_id.0));
                    }
                    found = true;
                }
                k = k + 1;
            }
            if !found {
                proof {
                    assert(id_set(self.evidence_ids@).contains(x));
                    assert(!cited_ids(*proposed).contains(x));
                }
                return false;
            }
            j = j + 1;
        }
        proof {
            assert(id_set(self.evidence_ids@) =~= cited_ids(*proposed)) by {
                assert forall|y: u128| id_set(self.evidence_ids@).contains(y) implies cited_ids(*proposed).contains(y) by {
                    let k = choose|k: int| 0 <= k < self.evidence_ids@.len() && self.evidence_ids@[k].0 == y;
                    assert(cited_ids(*proposed).contains(self.evidence_ids@[k].0));
                }
                assert forall|y: u128| cited_ids(*proposed).contains(y) implies id_set(self.evidence_ids@).contains(y) by {
                    let k = choose|k: int| 0 <= k < refs@.len() && (#[trigger] refs@[k]).evidence_id.0 == y;
                    assert(id_set(self.evidence_ids@).contains(refs@[k].evidence_id.0));
                }
            }
        }
        true
    }
}

/// Copies of the evidence records, in order.
pub fn clone_evidence_list(v: &[IntelligenceEvidence]) -> (r: Vec<IntelligenceEvidence>)
    ensures
        r@.len() == v@.len(),
        forall|i: int| 0 <= i < v@.len() ==> evidence_same(#[trigger] r@[i], v@[i]),
{
    let mut r: Vec<IntelligenceEvidence> = Vec::new();
    let mut i: usize = 0;
    while i < v.len()
        invariant
            i <= v@.len(),
            r@.len() == i,
            forall|k: int| 0 <= k < i ==> evidence_same(#[trigger] r@[k], v@[k]),
        decreases v.len() - i,
    {
        r.push(v[i].clone());
        i = i + 1;
    }
    r
}

/// The symbol of the first of the impacts, from `k` on, outside the universe.
pub open spec fn first_outside(u: Seq<Seq<char>>, a: Seq<AssetImpact>, k: int) -> Option<Seq<char>>
    decreases a.len() - k,
{
    if k < 0 || k >= a.len() {
        None
    } else if !u.contains(a[k].instrument@) {
        Some(a[k].instrument@)
    } else {
        first_outside(u, a, k + 1)
    }
}

/// The first evidence record, from `i` on, that is invalid or reaches
/// outside the universe, by the message it is refused with.
pub open spec fn evidence_scope_fault(u: Seq<Seq<char>>, ev: Seq<IntelligenceEvidence>, i: int) -> Option<Seq<char>>
    decreases ev.len() - i,
{
    if i < 0 || i >= ev.len() {
        None
    } else if evidence_fault(ev[i]) is Some {
        Some(intelligence_error_text(evidence_fault(ev[i])->0))
    } else if first_outside(u, ev[i].affected_assets@, 0) is Some {
        Some("evidence references instrument outside universe: "@ + first_outside(u, ev[i].affected_assets@, 0)->0)
    } else {
        evidence_scope_fault(u, ev, i + 1)
    }
}

/// The first position, from `i` on, outside the universe.
pub open spec fn position_scope_fault(u: Seq<Seq<char>>, ps: Seq<PositionState>, i: int) -> Option<Seq<char>>
    decreases ps.len() - i,
{
    if i < 0 || i >= ps.len() {
        None
    } else if !u.contains(ps[i].spec_instrument()@) {
        Some("position is outside configured universe: "@ + ps[i].spec_instrument()@)
    } else {
        position_scope_fault(u, ps, i + 1)
    }
}

/// The symbols of market contexts.
pub open spec fn market_symbols(v: Seq<MarketContext>) -> Seq<Seq<char>> {
    Seq::new(v.len(), |i: int| v[i].instrument@)
}

/// Market contexts keyed by instrument: ascending by symbol, each once.
pub open spec fn market_keyed(v: Seq<MarketContext>) -> bool {
    forall|i: int, j: int| 0 <= i < j < v.len() ==> lex_lt(#[trigger] v[i].instrument@, #[trigger] v[j].instrument@)
}

/// The market contexts name some instrument twice.
pub open spec fn market_repeats(v: Seq<MarketContext>) -> bool {
    exists|i: int, j: int| 0 <= i < j < v.len() && (#[trigger] v[i].instrument)@ == (#[trigger] v[j].instrument)@
}

#[derive(Debug)]
pub struct DecisionContext {
    pub trigger: DecisionTrigger,
    pub universe: TradingUniverse,
    pub as_of: Timestamp,
    pub evidence: Vec<IntelligenceEvidence>,
    pub market_context: Vec<MarketContext>,
    pub positions: PositionSnapshot,
    pub source_health: SourceHealthRegistry,
    pub source_errors: Vec<SourceError>,
    pub prior_decisions: Vec<PriorDecision>,
}

/// Places a market context among contexts kept ascending by symbol; a
/// second context for an instrument is refused.
fn insert_market(v: &mut Vec<MarketContext>, x: MarketContext) -> (ok: bool)
    requires
        market_keyed(old(v)@),
    ensures
        market_keyed(final(v)@),
        ok <==> !market_symbols(old(v)@).contains(x.instrument@),
        ok ==> final(v)@.to_multiset() == old(v)@.to_multiset().insert(x),
        !ok ==> final(v)@ == old(v)@,
{
    let ghost old_v = v@;
    let mut i: usize = 0;
    while i < v.len() && v[i].instrument.precedes(&x.instrument)
        invariant
            i <= v@.len(),
            v@ == old_v,
            market_keyed(old_v),
            forall|k: int| 0 <= k < i ==> lex_lt(#[trigger] old_v[k].instrument@, x.instrument@),
        decreases v.len() - i,
    {
        i = i + 1;
    }
    proof {
        assert forall|k: int| i <= k < old_v.len() implies !lex_lt(#[trigger] old_v[k].instrument@, x.instrument@) by {
            if k > i as int {
                assert(lex_lt(old_v[i as int].instrument@, old_v[k].instrument@));
                if lex_lt(old_v[k].instrument@, x.instrument@) {
                    lemma_lex_transitive(old_v[i as int].instrument@, old_v[k].instrument@, x.instrument@);
                }
            }
        }
    }
    if i < v.len() && v[i].instrument.same_as(&x.instrument) {
        proof {
            assert(market_symbols(old_v)[i as int] == x.instrument@);
        }
        return false;
    }
    proof {
        assert forall|k: int| 0 <= k < old_v.len() implies #[trigger] old_v[k].instrument@ != x.instrument@ by {
            if k < i as int {
                assert(lex_lt(old_v[k].instrument@, x.instrument@));
                crate::domain::instrument::lemma_lex_irreflexive(x.instrument@);
            } else if k > i as int {
                assert(lex_lt(old_v[i as int].instrument@, old_v[k].instrument@));
                lemma_lex_total(x.instrument@, old_v[i as int].instrument@);
                if lex_lt(x.instrument@, old_v[i as int].instrument@) {
                    lemma_lex_transitive(x.instrument@, old_v[i as int].instrument@, old_v[k].instrument@);
                    crate::domain::instrument::lemma_lex_irreflexive(x.instrument@);
                }
            }
        }
        assert(!market_symbols(old_v).contains(x.instrument@)) by {
            if market_symbols(old_v).contains(x.instrument@) {
                let k = choose|k: int| 0 <= k < market_symbols(old_v).len() && market_symbols(old_v)[k] == x.instrument@;
                assert(old_v[k].instrument@ == x.instrument@);
            }
        }
        assert forall|k: int| i <= k < old_v.len() implies lex_lt(x.instrument@, #[trigger] old_v[k].instrument@) by {
            lemma_lex_total(x.instrument@, old_v[k].instrument@);
        }
    }
    let ghost xv = x;
    v.insert(i, x);
    proof {
        let t = v@;
        assert(t =~= old_v.insert(i as int, xv));
        assert forall|a: int, b: int| 0 <= a < b < t.len() implies lex_lt(#[trigger] t[a].instrument@, #[trigger] t[b].instrument@) by {
            if a < i as int && b < i as int {
            } else if a < i as int && b == i as int {
            } else if a < i as int {
                assert(t[b] == old_v[b - 1]);
            } else if a == i as int {
                assert(t[b] == old_v[b - 1]);
            } else {
                assert(t[a] == old_v[a - 1] && t[b] == old_v[b - 1]);
            }
        }
        old_v.to_multiset_ensures();
        assert(old_v.insert(i as int, xv).to_multiset() =~= old_v.to_multiset().insert(xv)) by {
            vstd::seq_lib::lemma_multiset_commutative(old_v.subrange(0, i as int), old_v.subrange(i as int, old_v.len() as int));
            assert(old_v.insert(i as int, xv) =~= old_v.subrange(0, i as int).push(xv) + old_v.subrange(i as int, old_v.len() as int));
            vstd::seq_lib::lemma_multiset_commutative(old_v.subrange(0, i as int).push(xv), old_v.subrange(i as int, old_v.len() as int));
            assert(old_v =~= old_v.subrange(0, i as int) + old_v.subrange(i as int, old_v.len() as int));
            old_v.subrange(0, i as int).to_multiset_ensures();
        }
    }
    true
}

/// Keys market contexts by instrument, ascending by symbol; an instrument
/// given twice is refused.
pub fn market_map(market_context: Vec<MarketContext>) -> (r: Result<Vec<MarketContext>, DecisionError>)
    ensures
        r is Ok <==> !market_repeats(market_context@),
        r matches Ok(v) ==> market_keyed(v@) && v@.to_multiset() == market_context@.to_multiset(),
        r matches Err(e) ==> e matches DecisionError::InvalidContext(m) && m@ == "duplicate market instrument"@,
{
    let ghost input = market_context@;
    let total = market_context.len();
    let mut rest = market_context;
    let mut mapped: Vec<MarketContext> = Vec::new();
    let mut n: usize = 0;
    while rest.len() > 0
        invariant
            n + rest@.len() == input.len(),
            input.len() == total,
            input == market_context@,
            rest@ == input.subrange(n as int, input.len() as int),
            market_keyed(mapped@),
            mapped@.to_multiset() == input.subrange(0, n as int).to_multiset(),
            forall|s: Seq<char>| market_symbols(mapped@).contains(s) <==> market_symbols(input.subrange(0, n as int)).contains(s),
            !market_repeats(input.subrange(0, n as int)),
        decreases rest.len(),
    {
        let x = rest.remove(0);
        let ghost xv = x;
        let ghost before = mapped@;
        proof {
            assert(xv == input[n as int]);
        }
        if !insert_market(&mut mapped, x) {
            proof {
                let k = choose|k: int| 0 <= k < market_symbols(before).len() && market_symbols(before)[k] == xv.instrument@;
                assert(market_symbols(before).contains(xv.instrument@));
                assert(market_symbols(input.subrange(0, n as int)).contains(xv.instrument@));
                let j = choose|j: int| 0 <= j < market_symbols(input.subrange(0, n as int)).len() && market_symbols(input.subrange(0, n as int))[j] == xv.instrument@;
                assert(j < n);
                assert(input.subrange(0, n as int)[j] == input[j]);
                assert(input[j].instrument@ == input[n as int].instrument@);
                assert(market_repeats(input));
            }
            return Err(DecisionError::InvalidContext(String::from_str("duplicate market instrument")));
        }
        proof {
            let pre = input.subrange(0, n as int);
            let post = input.subrange(0, n + 1);
            assert(post =~= pre.push(xv));
            pre.to_multiset_ensures();
            assert forall|s: Seq<char>| market_symbols(mapped@).contains(s) <==> market_symbols(post).contains(s) by {
                assert(market_symbols(mapped@).contains(s) <==> (market_symbols(before).contains(s) || s == xv.instrument@)) by {
                                if market_symbols(mapped@).contains(s) {
                        let k = choose|k: int| 0 <= k < market_symbols(mapped@).len() && market_symbols(mapped@)[k] == s;
                        assert(mapped@.to_multiset().count(mapped@[k]) > 0);
                        assert(before.to_multiset().insert(xv).count(mapped@[k]) > 0);
                        if mapped@[k] != xv {
                            assert(before.to_multiset().count(mapped@[k]) > 0);
                            assert(before.contains(mapped@[k]));
                            let m = choose|m: int| 0 <= m < before.len() && before[m] == mapped@[k];
                            assert(market_symbols(before)[m] == s);
                        }
                    }
                    if market_symbols(before).contains(s) {
                        let m = choose|m: int| 0 <= m < market_symbols(before).len() && market_symbols(before)[m] == s;
                        assert(before.to_multiset().count(before[m]) > 0);
                        assert(mapped@.to_multiset().count(before[m]) > 0);
                        assert(mapped@.contains(before[m]));
                        let k = choose|k: int| 0 <= k < mapped@.len() && mapped@[k] == before[m];
                        assert(market_symbols(mapped@)[k] == s);
                    }
                    if s == xv.instrument@ {
                        assert(mapped@.to_multiset().count(xv) > 0);
                        assert(mapped@.contains(xv));
                        let k = choose|k: int| 0 <= k < mapped@.len() && mapped@[k] == xv;
                        assert(market_symbols(mapped@)[k] == s);
                    }
                }
                if market_symbols(post).contains(s) {
                    let k = choose|k: int| 0 <= k < market_symbols(post).len() && market_symbols(post)[k] == s;
                    if k < n as int {
                        assert(market_symbols(pre)[k] == s);
                    }
                }
                if market_symbols(pre).contains(s) {
                    let k = choose|k: int| 0 <= k < market_symbols(pre).len() && market_symbols(pre)[k] == s;
                    assert(market_symbols(post)[k] == s);
                }
                if s == xv.instrument@ {
                    assert(market_symbols(post)[n as int] == s);
                }
            }
            assert(!market_repeats(post)) by {
                if market_repeats(post) {
                    let (a, b) = choose|a: int, b: int| 0 <= a < b < post.len() && (#[trigger] post[a].instrument)@ == (#[trigger] post[b].instrument)@;
                    if b < n as int {
                        assert(pre[a] == post[a] && pre[b] == post[b]);
                    } else {
                        assert(market_symbols(pre)[a] == xv.instrument@);
                        assert(market_symbols(pre).contains(xv.instrument@));
                    }
                }
            }
        }
        n = n + 1;
    }
    proof {
        assert(input.subrange(0, n as int) =~= input);
    }
    Ok(mapped)
}

/// The checks of a decision context, by the message of the first that fails
/// after the universe itself is found valid.
pub open spec fn scope_fault(u: Seq<Seq<char>>, ev: Seq<IntelligenceEvidence>, ps: Seq<PositionState>, mc: Seq<MarketContext>) -> Option<Seq<char>> {
    if evidence_scope_fault(u, ev, 0) is Some {
        evidence_scope_fault(u, ev, 0)
    } else if position_scope_fault(u, ps, 0) is Some {
        position_scope_fault(u, ps, 0)
    } else if market_repeats(mc) {
        Some("duplicate market instrument"@)
    } else {
        None
    }
}

fn check_evidence_scope(universe: &TradingUniverse, evidence: &Vec<IntelligenceEvidence>) -> (r: Result<(), DecisionError>)
    ensures
        r is Ok <==> evidence_scope_fault(universe@, evidence@, 0) is None,
        r matches Err(e) ==> e matches DecisionError::InvalidContext(m) && Some(m@) == evidence_scope_fault(universe@, evidence@, 0),
{
    let mut i: usize = 0;
    while i < evidence.len()
        invariant
            i <= evidence@.len(),
            evidence_scope_fault(universe@, evidence@, 0) == evidence_scope_fault(universe@, evidence@, i as int),
        decreases evidence.len() - i,
    {
        match evidence[i].validate() {
            Ok(()) => {},
            Err(e) => {
                return Err(DecisionError::InvalidContext(e.message()));
            },
        }
        let impacts = &evidence[i].affected_assets;
        let mut k: usize = 0;
        while k < impacts.len()
            invariant
                i < evidence@.len(),
                impacts@ == evidence@[i as int].affected_assets@,
                evidence_fault(evidence@[i as int]) is None,
                evidence_scope_fault(universe@, evidence@, 0) == evidence_scope_fault(universe@, evidence@, i as int),
                k <= impacts@.len(),
                first_outside(universe@, impacts@, 0) == first_outside(universe@, impacts@, k as int),
            decreases impacts.len() - k,
        {
            if !universe.contains(&impacts[k].instrument) {
                let symbol = impacts[k].instrument.to_symbol_string();
                return Err(DecisionError::InvalidContext(concat("evidence references instrument outside universe: ", symbol.as_str())));
            }
            k = k + 1;
        }
        i = i + 1;
    }
    Ok(())
}

fn check_position_scope(universe: &TradingUniverse, positions: &Vec<PositionState>) -> (r: Result<(), DecisionError>)
    ensures
        r is Ok <==> position_scope_fault(universe@, positions@, 0) is None,
        r matches Err(e) ==> e matches DecisionError::InvalidContext(m) && Some(m@) == position_scope_fault(universe@, positions@, 0),
{
    let mut i: usize = 0;
    while i < positions.len()
        invariant
            i <= positions@.len(),
            position_scope_fault(universe@, positions@, 0) == position_scope_fault(universe@, positions@, i as int),
        decreases positions.len() - i,
    {
        if !universe.contains(positions[i].instrument()) {
            let symbol = positions[i].instrument().to_symbol_string();
            return Err(DecisionError::InvalidContext(concat("position is outside configured universe: ", symbol.as_str())));
        }
        i = i + 1;
    }
    Ok(())
}

impl DecisionContext {
    pub closed spec fn spec_market_context(&self) -> Seq<MarketContext> {
        self.market_context@
    }

    /// A context for a decision cycle: the universe must be valid, every
    /// evidence record valid and within the universe, every position within
    /// the universe, and each instrument given market context at most once.
    pub fn new(
        trigger: DecisionTrigger,
        universe: TradingUniverse,
        as_of: Timestamp,
        evidence: Vec<IntelligenceEvidence>,
        market_context: Vec<MarketContext>,
        positions: PositionSnapshot,
        source_health: SourceHealthRegistry,
    ) -> (r: Result<DecisionContext, DecisionError>)
        ensures
            !(universe@.len() > 0 && crate::domain::universe::no_duplicates(universe@)) ==> (r matches Err(
                DecisionError::InvalidContext(m),
            ) && exists|e: DomainError| crate::domain::universe::universe_error(universe@, e) && m@ == domain_error_text(e)),
            (universe@.len() > 0 && crate::domain::universe::no_duplicates(universe@)) ==> match scope_fault(
                universe@,
                evidence@,
                positions.spec_positions(),
                market_context@,
            ) {
                Some(m) => r matches Err(DecisionError::InvalidContext(x)) && x@ == m,
                None => r is Ok,
            },
            r matches Ok(c) ==> {
                &&& c.trigger == trigger
                &&& c.universe == universe
                &&& c.as_of == as_of
                &&& c.evidence == evidence
                &&& c.positions == positions
                &&& c.source_health == source_health
                &&& c.source_errors@.len() == 0
                &&& c.prior_decisions@.len() == 0
                &&& market_keyed(c.spec_market_context())
                &&& c.spec_market_context().to_multiset() == market_context@.to_multiset()
            },
    {
        match universe.validate() {
            Ok(()) => {},
            Err(e) => {
                return Err(DecisionError::InvalidContext(e.message()));
            },
        }
        match check_evidence_scope(&universe, &evidence) {
            Ok(()) => {},
            Err(e) => {
                return Err(e);
            },
        }
        match check_position_scope(&universe, positions.positions()) {
            Ok(()) => {},
            Err(e) => {
                return Err(e);
            },
        }
        let mapped = match market_map(market_context) {
            Ok(m) => m,
            Err(e) => {
                return Err(e);
            },
        };
        Ok(DecisionContext {
            trigger,
            universe,
            as_of,
            evidence,
            market_context: mapped,
            positions,
            source_health,
            source_errors: Vec::new(),
            prior_decisions: Vec::new(),
        })
    }

    /// A context from a collection snapshot: its time, observations, health
    /// and source errors.
    pub fn from_intelligence_snapshot(
        trigger: DecisionTrigger,
        universe: TradingUniverse,
        snapshot: &IntelligenceSnapshot,
        market_context: Vec<MarketContext>,
        positions: PositionSnapshot,
    ) -> (r: Result<DecisionContext, DecisionError>)
        ensures
            r matches Ok(c) ==> {
                &&& c.as_of == snapshot.spec_as_of()
                &&& c.source_health == snapshot.spec_source_health()
                &&& c.source_errors@ == snapshot.spec_source_errors()
                &&& c.evidence@.len() == snapshot.spec_observations().len()
                &&& forall|i: int| 0 <= i < c.evidence@.len() ==> evidence_same(#[trigger] c.evidence@[i], snapshot.spec_observations()[i])
            },
    {
        let evidence = clone_evidence_list(snapshot.observations());
        let mut context = match Self::new(
            trigger,
            universe,
            snapshot.as_of(),
            evidence,
            market_context,
            positions,
            *snapshot.source_health(),
        ) {
            Ok(c) => c,
            Err(e) => {
                return Err(e);
            },
        };
        let errors = snapshot.source_errors();
        let mut copied: Vec<SourceError> = Vec::new();
        let mut i: usize = 0;
        while i < errors.len()
            invariant
                i <= errors@.len(),
                copied@ == errors@.subrange(0, i as int),
            decreases errors.len() - i,
        {
            copied.push(errors[i]);
            proof {
                assert(errors@.subrange(0, i + 1) =~= errors@.subrange(0, i as int).push(errors@[i as int]));
            }
            i = i + 1;
        }
        proof {
            assert(errors@.subrange(0, errors@.len() as int) =~= errors@);
        }
        context.source_errors = copied;
        Ok(context)
    }

    pub fn market_context(&self) -> (m: &Vec<MarketContext>)
        ensures
            m@ == self.spec_market_context(),
    {
        &self.market_context
    }

    pub fn with_prior_decisions(self, prior_decisions: Vec<PriorDecision>) -> (c: DecisionContext)
        ensures
            c == (DecisionContext { prior_decisions, ..self }),
    {
        DecisionContext { prior_decisions, ..self }
    }

    /// Replaces the market context; an instrument given twice is refused and
    /// leaves the context as it was.
    pub fn set_market_context(&mut self, market_context: Vec<MarketContext>) -> (r: Result<(), DecisionError>)
        ensures
            r is Ok <==> !market_repeats(market_context@),
            r is Ok ==> market_keyed(final(self).spec_market_context()) && final(self).spec_market_context().to_multiset()
                == market_context@.to_multiset(),
            r is Err ==> *final(self) == *old(self),
            final(self).evidence == old(self).evidence,
            final(self).universe == old(self).universe,
    {
        match market_map(market_context) {
            Ok(m) => {
                self.market_context = m;
                Ok(())
            },
            Err(e) => Err(e),
        }
    }
}

#[derive(Clone, Copy, Debug, PartialEq, Eq, Structural)]
pub struct ResearchBudget {
    pub max_source_calls: usize,
    pub max_deep_research_candidates: usize,
    pub max_actionable_decisions: usize,
    pub max_results_per_query: usize,
    pub max_results_per_source: usize,
}

impl Default for ResearchBudget {
    /// Eight source calls, three deep-research candidates, three actionable
    /// decisions, twenty results per query and ten per source.
    fn default() -> (b: ResearchBudget)
        ensures
            b == (ResearchBudget {
                max_source_calls: 8,
                max_deep_research_candidates: 3,
                max_actionable_decisions: 3,
                max_results_per_query: 20,
                max_results_per_source: 10,
            }),
    {
        ResearchBudget {
            max_source_calls: 8,
            max_deep_research_candidates: 3,
            max_actionable_decisions: 3,
            max_results_per_query: 20,
            max_results_per_source: 10,
        }
    }
}

impl ResearchBudget {
    pub fn with_max_source_calls(self, value: usize) -> (b: ResearchBudget)
        ensures
            b == (ResearchBudget { max_source_calls: value, ..self }),
    {
        ResearchBudget { max_source_calls: value, ..self }
    }

    pub fn with_max_deep_research_candidates(self, value: usize) -> (b: ResearchBudget)
        ensures
            b == (ResearchBudget { max_deep_research_candidates: value, ..self }),
    {
        ResearchBudget { max_deep_research_candidates: value, ..self }
    }

    pub fn with_max_actionable_decisions(self, value: usize) -> (b: ResearchBudget)
        ensures
            b == (ResearchBudget { max_actionable_decisions: value, ..self }),
    {
        ResearchBudget { max_actionable_decisions: value, ..self }
    }
}

#[derive(Debug, PartialEq, Eq)]
pub struct ResearchRequest {
    pub source: IntelligenceSource,
    pub instrument: Instrument,
    pub query: BoundedEvidenceQuery,
    pub rationale: String,
}

impl ResearchRequest {
    pub fn new(source: IntelligenceSource, instrument: Instrument, query: BoundedEvidenceQuery, rationale: String) -> (r: ResearchRequest)
        ensures
            r == (ResearchRequest { source, instrument, query, rationale }),
    {
        ResearchRequest { source, instrument, query, rationale }
    }
}

#[derive(Debug, PartialEq, Eq)]
pub struct ResearchResult {
    pub source: IntelligenceSource,
    pub evidence: Vec<IntelligenceEvidence>,
}

impl ResearchResult {
    pub fn new(source: IntelligenceSource, evidence: Vec<IntelligenceEvidence>) -> (r: ResearchResult)
        ensures
            r == (ResearchResult { source, evidence }),
    {
        ResearchResult { source, evidence }
    }
}

} // verus!
