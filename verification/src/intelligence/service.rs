//! Collection of intelligence from the registered source adapters.

use vstd::prelude::*;

use crate::domain::instrument::{lemma_lex_asymmetric, lemma_lex_irreflexive, lemma_lex_total, lemma_lex_transitive, lex_lt, text_precedes};
use crate::timestamp::{ts_lt, Timestamp};
use super::evidence::{evidence_same, source_rank, IntelligenceEvidence, IntelligenceSource};
use super::health::{SourceErrorCategory, SourceHealth, SourceHealthRegistry};
use super::lineage::{event_index, fresh_lineage, ingest_step, ingest_trace, lineage_of, same_ledger, LineageLedger};
use super::evidence::evidence_fault;
use super::query::BoundedEvidenceQuery;
use super::sources::{IntelligenceSourceAdapter, SourceError};
use super::IntelligenceError;

verus! {

/// What one collection gathered: bounded observations, source health and
/// failures, the sources that were switched off, and whether anything was
/// left out to respect the bounds.
pub struct IntelligenceSnapshot {
    as_of: Timestamp,
    observations: Vec<IntelligenceEvidence>,
    source_health: SourceHealthRegistry,
    source_errors: Vec<SourceError>,
    disabled_sources: Vec<IntelligenceSource>,
    truncated: bool,
}

impl IntelligenceSnapshot {
    pub closed spec fn spec_as_of(&self) -> Timestamp {
        self.as_of
    }

    pub closed spec fn spec_observations(&self) -> Seq<IntelligenceEvidence> {
        self.observations@
    }

    pub closed spec fn spec_source_health(&self) -> SourceHealthRegistry {
        self.source_health
    }

    pub closed spec fn spec_source_errors(&self) -> Seq<SourceError> {
        self.source_errors@
    }

    pub closed spec fn spec_disabled_sources(&self) -> Seq<IntelligenceSource> {
        self.disabled_sources@
    }

    pub closed spec fn spec_truncated(&self) -> bool {
        self.truncated
    }

    pub fn as_of(&self) -> (t: Timestamp)
        ensures
            t == self.spec_as_of(),
    {
        self.as_of
    }

    pub fn observations(&self) -> (s: &[IntelligenceEvidence])
        ensures
            s@ == self.spec_observations(),
    {
        self.observations.as_slice()
    }

    pub fn source_health(&self) -> (h: &SourceHealthRegistry)
        ensures
            *h == self.spec_source_health(),
    {
        &self.source_health
    }

    pub fn source_errors(&self) -> (s: &[SourceError])
        ensures
            s@ == self.spec_source_errors(),
    {
        self.source_errors.as_slice()
    }

    pub fn disabled_sources(&self) -> (s: &[IntelligenceSource])
        ensures
            s@ == self.spec_disabled_sources(),
    {
        self.disabled_sources.as_slice()
    }

    pub fn was_truncated(&self) -> (b: bool)
        ensures
            b == self.spec_truncated(),
    {
        self.truncated
    }
}

/// Newest first, then by source, then by source event ID.
pub open spec fn comes_before(a: IntelligenceEvidence, b: IntelligenceEvidence) -> bool {
    ||| ts_lt(b.observed_at, a.observed_at)
    ||| (a.observed_at == b.observed_at && source_rank(a.source) < source_rank(b.source))
    ||| (a.observed_at == b.observed_at && a.source == b.source && lex_lt(a.source_event_id@, b.source_event_id@))
}

/// In collection order: no record comes before one listed earlier.
pub open spec fn in_order(s: Seq<IntelligenceEvidence>) -> bool {
    forall|i: int, j: int| 0 <= i < j < s.len() ==> !comes_before(#[trigger] s[j], #[trigger] s[i])
}

proof fn lemma_before_transitive(a: IntelligenceEvidence, b: IntelligenceEvidence, c: IntelligenceEvidence)
    requires
        comes_before(a, b),
        comes_before(b, c),
    ensures
        comes_before(a, c),
{
    if a.observed_at == b.observed_at && b.observed_at == c.observed_at && a.source == b.source && b.source == c.source {
        lemma_lex_transitive(a.source_event_id@, b.source_event_id@, c.source_event_id@);
    }
}

proof fn lemma_before_asymmetric(a: IntelligenceEvidence, b: IntelligenceEvidence)
    ensures
        !(comes_before(a, b) && comes_before(b, a)),
{
    lemma_lex_asymmetric(a.source_event_id@, b.source_event_id@);
}

fn before(a: &IntelligenceEvidence, b: &IntelligenceEvidence) -> (r: bool)
    ensures
        r == comes_before(*a, *b),
{
    if b.observed_at.lt(&a.observed_at) {
        return true;
    }
    if a.observed_at != b.observed_at {
        return false;
    }
    if a.source.rank() < b.source.rank() {
        return true;
    }
    a.source == b.source && text_precedes(a.source_event_id.as_str(), b.source_event_id.as_str())
}

/// The records at the indices are in collection order.
pub open spec fn indices_in_order(obs: Seq<IntelligenceEvidence>, idx: Seq<usize>) -> bool {
    forall|i: int, j: int| 0 <= i < j < idx.len() ==> !comes_before(obs[#[trigger] idx[j] as int], obs[#[trigger] idx[i] as int])
}

/// Sorts indices of records into collection order; indices whose records
/// neither comes before keep their order.
fn sort_indices(obs: &[IntelligenceEvidence], items: Vec<usize>) -> (r: Vec<usize>)
    requires
        forall|i: int| 0 <= i < items@.len() ==> (#[trigger] items@[i]) < obs@.len(),
    ensures
        indices_in_order(obs@, r@),
        r@.to_multiset() == items@.to_multiset(),
        forall|i: int| 0 <= i < r@.len() ==> (#[trigger] r@[i]) < obs@.len(),
{
    let mut sorted: Vec<usize> = Vec::new();
    let mut rest = items;
    let ghost all = rest@;
    proof {
        assert(all.subrange(0, 0) =~= Seq::<usize>::empty());
    }
    while rest.len() > 0
        invariant
            indices_in_order(obs@, sorted@),
            sorted@.len() + rest@.len() == all.len(),
            rest@ == all.subrange(sorted@.len() as int, all.len() as int),
            sorted@.to_multiset() == all.subrange(0, sorted@.len() as int).to_multiset(),
            forall|i: int| 0 <= i < all.len() ==> (#[trigger] all[i]) < obs@.len(),
            forall|i: int| 0 <= i < sorted@.len() ==> (#[trigger] sorted@[i]) < obs@.len(),
        decreases rest.len(),
    {
        let ghost n = sorted@.len();
        let item = rest.remove(0);
        proof {
            assert(item == all[n as int]);
        }
        let mut i: usize = sorted.len();
        while i > 0 && before(&obs[item], &obs[sorted[i - 1]])
            invariant
                i <= sorted@.len(),
                item < obs@.len(),
                indices_in_order(obs@, sorted@),
                forall|k: int| 0 <= k < sorted@.len() ==> (#[trigger] sorted@[k]) < obs@.len(),
                forall|k: int| i <= k < sorted@.len() ==> comes_before(obs@[item as int], obs@[#[trigger] sorted@[k] as int]),
            decreases i,
        {
            i = i - 1;
        }
        let ghost b = sorted@;
        let ghost x = obs@[item as int];
        proof {
            assert forall|k: int| 0 <= k < i implies !comes_before(x, obs@[#[trigger] b[k] as int]) by {
                if i > 0 {
                    assert(!comes_before(x, obs@[b[i - 1] as int]));
                    if k < i - 1 {
                        assert(!comes_before(obs@[b[i - 1] as int], obs@[b[k] as int]));
                        if comes_before(x, obs@[b[k] as int]) {
                            lemma_before_total(obs@[b[k] as int], obs@[b[i - 1] as int]);
                            if comes_before(obs@[b[k] as int], obs@[b[i - 1] as int]) {
                                lemma_before_transitive(x, obs@[b[k] as int], obs@[b[i - 1] as int]);
                            } else {
                                lemma_before_same_key(x, obs@[b[k] as int], obs@[b[i - 1] as int]);
                            }
                        }
                    }
                }
            }
        }
        sorted.insert(i, item);
        proof {
            let t = sorted@;
            assert(t == b.insert(i as int, item));
            assert forall|p: int, q: int| 0 <= p < q < t.len() implies !comes_before(obs@[#[trigger] t[q] as int], obs@[#[trigger] t[p] as int]) by {
                if p < i as int && q < i as int {
                    assert(t[p] == b[p] && t[q] == b[q]);
                } else if p < i as int && q == i as int {
                    assert(t[p] == b[p]);
                } else if p < i as int {
                    assert(t[p] == b[p] && t[q] == b[q - 1]);
                } else if p == i as int {
                    assert(t[q] == b[q - 1]);
                    lemma_before_asymmetric(x, obs@[b[q - 1] as int]);
                } else {
                    assert(t[p] == b[p - 1] && t[q] == b[q - 1]);
                }
            }
            assert forall|k: int| 0 <= k < t.len() implies (#[trigger] t[k]) < obs@.len() by {
                if k < i as int {
                    assert(t[k] == b[k]);
                } else if k > i as int {
                    assert(t[k] == b[k - 1]);
                }
            }
            assert(all.subrange(0, n + 1int) =~= all.subrange(0, n as int).push(item));
            vstd::seq_lib::to_multiset_build(all.subrange(0, n as int), item);
            vstd::seq_lib::to_multiset_insert(b, i as int, item);
            assert(rest@ =~= all.subrange(n + 1int, all.len() as int));
        }
    }
    proof {
        assert(all.subrange(0, all.len() as int) =~= all);
    }
    sorted
}

/// When `a` is not before `c` and `c` is not before `a`, anything before one is before the other.
proof fn lemma_before_same_key(x: IntelligenceEvidence, a: IntelligenceEvidence, c: IntelligenceEvidence)
    requires
        comes_before(x, a),
        !comes_before(a, c),
        !comes_before(c, a),
    ensures
        comes_before(x, c),
{
    lemma_before_total(a, c);
}

/// Two records are ordered one way or the other unless they share their key.
proof fn lemma_before_total(a: IntelligenceEvidence, b: IntelligenceEvidence)
    ensures
        comes_before(a, b) || comes_before(b, a) || (a.observed_at == b.observed_at && a.source == b.source
            && a.source_event_id@ == b.source_event_id@),
{
    lemma_lex_total(a.source_event_id@, b.source_event_id@);
    if a.observed_at != b.observed_at {
        assert(ts_lt(a.observed_at, b.observed_at) || ts_lt(b.observed_at, a.observed_at));
    }
    if a.source != b.source {
        assert(source_rank(a.source) != source_rank(b.source));
    }
}

/// How many of the records at the indices come from the source.
pub open spec fn count_from(obs: Seq<IntelligenceEvidence>, idx: Seq<usize>, src: IntelligenceSource) -> nat
    decreases idx.len(),
{
    if idx.len() == 0 {
        0
    } else {
        count_from(obs, idx.drop_last(), src) + if obs[idx.last() as int].source == src { 1nat } else { 0nat }
    }
}

/// The indices kept in order, each while its source is under the
/// per-source cap and the total is under the overall cap.
pub open spec fn bounded(obs: Seq<IntelligenceEvidence>, idx: Seq<usize>, per_source: nat, total: nat) -> Seq<usize>
    decreases idx.len(),
{
    if idx.len() == 0 {
        Seq::empty()
    } else {
        let kept = bounded(obs, idx.drop_last(), per_source, total);
        if count_from(obs, kept, obs[idx.last() as int].source) >= per_source || kept.len() >= total {
            kept
        } else {
            kept.push(idx.last())
        }
    }
}

/// A record the collection reports: from the requested source if one was
/// named, not from a switched-off source, and within the query.
pub open spec fn reported(e: IntelligenceEvidence, q: BoundedEvidenceQuery, only: Option<IntelligenceSource>, disabled: Seq<IntelligenceSource>) -> bool {
    &&& (only matches Some(s) ==> e.source == s)
    &&& !disabled.contains(e.source)
    &&& q.admits(e)
}

/// The indices of the records that the collection reports, ascending.
pub open spec fn reported_indices(obs: Seq<IntelligenceEvidence>, q: BoundedEvidenceQuery, only: Option<IntelligenceSource>, disabled: Seq<IntelligenceSource>, n: int) -> Seq<usize>
    decreases n,
{
    if n <= 0 {
        Seq::empty()
    } else {
        let rest = reported_indices(obs, q, only, disabled, n - 1);
        if reported(obs[n - 1], q, only, disabled) {
            rest.push((n - 1) as usize)
        } else {
            rest
        }
    }
}

/// Ascending by source order, each source once.
pub open spec fn sources_ascending(s: Seq<IntelligenceSource>) -> bool {
    forall|i: int, j: int| 0 <= i < j < s.len() ==> source_rank(#[trigger] s[i]) < source_rank(#[trigger] s[j])
}

fn insert_source(v: &mut Vec<IntelligenceSource>, x: IntelligenceSource)
    requires
        sources_ascending(old(v)@),
    ensures
        sources_ascending(final(v)@),
        forall|s: IntelligenceSource| final(v)@.contains(s) <==> (old(v)@.contains(s) || s == x),
{
    let ghost b = v@;
    let mut i: usize = 0;
    while i < v.len() && v[i].rank() < x.rank()
        invariant
            i <= v@.len(),
            v@ == b,
            sources_ascending(b),
            forall|k: int| 0 <= k < i ==> source_rank(#[trigger] b[k]) < source_rank(x),
        decreases v.len() - i,
    {
        i = i + 1;
    }
    if i < v.len() && v[i] == x {
        return;
    }
    proof {
        assert forall|k: int| i <= k < b.len() implies source_rank(x) < source_rank(#[trigger] b[k]) by {
            if k > i as int {
                assert(source_rank(b[i as int]) < source_rank(b[k]));
            }
            if k == i as int {
                assert(b[k] != x);
                assert(source_rank(b[k]) != source_rank(x));
            }
        }
    }
    v.insert(i, x);
    proof {
        let t = v@;
        assert(t == b.insert(i as int, x));
        assert forall|p: int, q: int| 0 <= p < q < t.len() implies source_rank(#[trigger] t[p]) < source_rank(#[trigger] t[q]) by {
            if p < i as int && q < i as int {
            } else if p < i as int && q == i as int {
            } else if p < i as int {
                assert(t[q] == b[q - 1]);
            } else if p == i as int {
                assert(t[q] == b[q - 1]);
            } else {
                assert(t[p] == b[p - 1] && t[q] == b[q - 1]);
            }
        }
        assert forall|s: IntelligenceSource| t.contains(s) <==> (b.contains(s) || s == x) by {
            if t.contains(s) {
                let k = choose|k: int| 0 <= k < t.len() && t[k] == s;
                if k < i as int {
                    assert(b[k] == s);
                } else if k > i as int {
                    assert(b[k - 1] == s);
                }
            }
            if b.contains(s) {
                let k = choose|k: int| 0 <= k < b.len() && b[k] == s;
                if k < i as int {
                    assert(t[k] == s);
                } else {
                    assert(t[k + 1] == s);
                }
            }
            if s == x {
                assert(t[i as int] == s);
            }
        }
    }
}

fn contains_source(v: &Vec<IntelligenceSource>, x: IntelligenceSource) -> (b: bool)
    ensures
        b == v@.contains(x),
{
    let mut i: usize = 0;
    while i < v.len()
        invariant
            i <= v@.len(),
            forall|k: int| 0 <= k < i ==> v@[k] != x,
        decreases v.len() - i,
    {
        if v[i] == x {
            return true;
        }
        i = i + 1;
    }
    false
}

/// Collects evidence from registered adapters into a lineage ledger and
/// keeps their health.
/// Some adapter reads the source.
pub open spec fn has_source<A: IntelligenceSourceAdapter>(adapters: Seq<A>, source: IntelligenceSource) -> bool {
    exists|k: int| 0 <= k < adapters.len() && (#[trigger] adapters[k]).spec_source() == source
}

/// An adapter after switching its source on or off (where `done`): of the
/// source and switchable, it is on exactly when asked; otherwise as it was.
pub open spec fn switched_at<A: IntelligenceSourceAdapter>(a: A, b: A, source: IntelligenceSource, enabled: bool, done: bool) -> bool {
    &&& b.spec_source() == a.spec_source()
    &&& b.spec_switchable() == a.spec_switchable()
    &&& if done && a.spec_source() == source {
        b.spec_active() == if a.spec_switchable() { enabled } else { a.spec_active() }
    } else {
        b == a
    }
}

/// Every adapter of the source switched on or off, the others untouched.
pub open spec fn switched<A: IntelligenceSourceAdapter>(before: Seq<A>, after: Seq<A>, source: IntelligenceSource, enabled: bool) -> bool {
    &&& after.len() == before.len()
    &&& forall|k: int| 0 <= k < before.len() ==> #[trigger] switched_at(before[k], after[k], source, enabled, true)
}

/// Whether the first adapter of the source from position `i` on takes
/// part in collection; false where there is none.
pub open spec fn source_active<A: IntelligenceSourceAdapter>(adapters: Seq<A>, source: IntelligenceSource, i: int) -> bool
    decreases adapters.len() - i,
{
    if i < 0 || i >= adapters.len() {
        false
    } else if adapters[i].spec_source() == source {
        adapters[i].spec_active()
    } else {
        source_active(adapters, source, i + 1)
    }
}

pub struct IntelligenceService<A: IntelligenceSourceAdapter> {
    adapters: Vec<A>,
    ledger: LineageLedger,
    health: SourceHealthRegistry,
}

impl<A: IntelligenceSourceAdapter> IntelligenceService<A> {
    #[verifier::type_invariant]
    spec fn ledger_wf(self) -> bool {
        self.ledger.wf()
    }

    pub closed spec fn spec_ledger(&self) -> LineageLedger {
        self.ledger
    }

    pub closed spec fn spec_health(&self) -> SourceHealthRegistry {
        self.health
    }

    pub closed spec fn spec_adapter_count(&self) -> nat {
        self.adapters@.len()
    }

    pub closed spec fn spec_adapters(&self) -> Seq<A> {
        self.adapters@
    }

    pub fn new() -> (s: IntelligenceService<A>)
        ensures
            s.spec_ledger().wf(),
            s.spec_ledger().spec_observations().len() == 0,
            forall|x: IntelligenceSource| #[trigger] s.spec_health().health(x) == Some(super::health::unknown_health()),
            s.spec_adapter_count() == 0,
    {
        IntelligenceService { adapters: Vec::new(), ledger: LineageLedger::new(), health: SourceHealthRegistry::new() }
    }

    pub fn register(&mut self, adapter: A)
        ensures
            final(self).spec_adapter_count() == old(self).spec_adapter_count() + 1,
            final(self).spec_ledger() == old(self).spec_ledger(),
            final(self).spec_health() == old(self).spec_health(),
    {
        proof {
            use_type_invariant(&*self);
        }
        let mut adapters: Vec<A> = Vec::new();
        std::mem::swap(&mut adapters, &mut self.adapters);
        adapters.push(adapter);
        std::mem::swap(&mut adapters, &mut self.adapters);
    }

    /// Switches every adapter of the source on or off; says whether there was one.
    pub fn set_source_enabled(&mut self, source: IntelligenceSource, enabled: bool) -> (found: bool)
        ensures
            final(self).spec_adapter_count() == old(self).spec_adapter_count(),
            final(self).spec_ledger() == old(self).spec_ledger(),
            final(self).spec_health() == old(self).spec_health(),
            found == has_source(old(self).spec_adapters(), source),
            switched(old(self).spec_adapters(), final(self).spec_adapters(), source, enabled),
    {
        proof {
            use_type_invariant(&*self);
        }
        let mut adapters: Vec<A> = Vec::new();
        std::mem::swap(&mut adapters, &mut self.adapters);
        let ghost before = adapters@;
        let mut found = false;
        let mut i: usize = 0;
        while i < adapters.len()
            invariant
                i <= adapters@.len(),
                adapters@.len() == before.len(),
                before == old(self).spec_adapters(),
                before.len() == old(self).spec_adapter_count(),
                found == exists|k: int| 0 <= k < i && (#[trigger] before[k]).spec_source() == source,
                forall|k: int| 0 <= k < i ==> #[trigger] switched_at(before[k], adapters@[k], source, enabled, true),
                forall|k: int| i <= k < before.len() ==> #[trigger] adapters@[k] == before[k],
            decreases adapters.len() - i,
        {
            if adapters[i].source() == source {
                adapters[i].set_enabled(enabled);
                found = true;
            }
            proof {
                assert(switched_at(before[i as int], adapters@[i as int], source, enabled, true));
            }
            i = i + 1;
        }
        std::mem::swap(&mut adapters, &mut self.adapters);
        found
    }

    /// Whether the first adapter of the source is switched on.
    pub fn is_source_enabled(&self, source: IntelligenceSource) -> (b: bool)
        ensures
            b == source_active(self.spec_adapters(), source, 0),
    {
        let mut i: usize = 0;
        while i < self.adapters.len()
            invariant
                i <= self.adapters@.len(),
                source_active(self.spec_adapters(), source, 0) == source_active(self.spec_adapters(), source, i as int),
            decreases self.adapters.len() - i,
        {
            if self.adapters[i].source() == source {
                return self.adapters[i].is_enabled();
            }
            i = i + 1;
        }
        false
    }

    pub fn enable_polymarket(&mut self) -> (found: bool)
        ensures
            final(self).spec_adapter_count() == old(self).spec_adapter_count(),
            final(self).spec_ledger() == old(self).spec_ledger(),
            final(self).spec_health() == old(self).spec_health(),
            found == has_source(old(self).spec_adapters(), IntelligenceSource::Polymarket),
            switched(old(self).spec_adapters(), final(self).spec_adapters(), IntelligenceSource::Polymarket, true),
    {
        self.set_source_enabled(IntelligenceSource::Polymarket, true)
    }

    pub fn disable_polymarket(&mut self) -> (found: bool)
        ensures
            final(self).spec_adapter_count() == old(self).spec_adapter_count(),
            final(self).spec_ledger() == old(self).spec_ledger(),
            final(self).spec_health() == old(self).spec_health(),
            found == has_source(old(self).spec_adapters(), IntelligenceSource::Polymarket),
            switched(old(self).spec_adapters(), final(self).spec_adapters(), IntelligenceSource::Polymarket, false),
    {
        self.set_source_enabled(IntelligenceSource::Polymarket, false)
    }

    /// Runs every adapter: each in-scope adapter is attempted (its health
    /// records the attempt), the switched-off ones are reported, and what
    /// the others return and the query admits is ingested, in order.
    pub fn collect(&mut self, query: &BoundedEvidenceQuery) -> (r: Result<IntelligenceSnapshot, IntelligenceError>)
        ensures
            final(self).spec_ledger().wf(),
            r matches Ok(snap) && collected(snap, *query, None, final(self).spec_ledger(), final(self).spec_health()),
            final(self).spec_adapters().len() == old(self).spec_adapters().len(),
            forall|k: int| 0 <= k < old(self).spec_adapters().len() ==> same_role(
                #[trigger] final(self).spec_adapters()[k],
                old(self).spec_adapters()[k],
            ),
            forall|k: int| 0 <= k < old(self).spec_adapters().len() && in_scope(old(self).spec_adapters()[k], None)
                ==> attempted_at(final(self).spec_health(), #[trigger] old(self).spec_adapters()[k].spec_source(), query.spec_as_of()),
            forall|s: IntelligenceSource| !touched(old(self).spec_adapters(), None, s, old(self).spec_adapters().len() as int)
                ==> #[trigger] final(self).spec_health().health(s) == old(self).spec_health().health(s),
            r matches Ok(snap) ==> forall|s: IntelligenceSource| #[trigger] snap.spec_disabled_sources().contains(s)
                <==> disabled_in_scope(old(self).spec_adapters(), None, s, old(self).spec_adapters().len() as int),
            ingested_from(old(self).spec_ledger(), *query, final(self).spec_ledger()),
    {
        self.collect_internal(query, None)
    }

    pub fn collect_source(&mut self, source: IntelligenceSource, query: &BoundedEvidenceQuery) -> (r: Result<IntelligenceSnapshot, IntelligenceError>)
        ensures
            final(self).spec_ledger().wf(),
            r matches Ok(snap) && collected(snap, *query, Some(source), final(self).spec_ledger(), final(self).spec_health()),
            final(self).spec_adapters().len() == old(self).spec_adapters().len(),
            forall|k: int| 0 <= k < old(self).spec_adapters().len() ==> same_role(
                #[trigger] final(self).spec_adapters()[k],
                old(self).spec_adapters()[k],
            ),
            forall|k: int| 0 <= k < old(self).spec_adapters().len() && in_scope(old(self).spec_adapters()[k], Some(source))
                ==> attempted_at(final(self).spec_health(), #[trigger] old(self).spec_adapters()[k].spec_source(), query.spec_as_of()),
            forall|s: IntelligenceSource| !touched(old(self).spec_adapters(), Some(source), s, old(self).spec_adapters().len() as int)
                ==> #[trigger] final(self).spec_health().health(s) == old(self).spec_health().health(s),
            r matches Ok(snap) ==> forall|s: IntelligenceSource| #[trigger] snap.spec_disabled_sources().contains(s)
                <==> disabled_in_scope(old(self).spec_adapters(), Some(source), s, old(self).spec_adapters().len() as int),
            ingested_from(old(self).spec_ledger(), *query, final(self).spec_ledger()),
    {
        self.collect_internal(query, Some(source))
    }

    /// Runs the adapters (all, or those of one source), records what they
    /// return in the ledger and their health, and reports the ledger's
    /// matching records newest first within the query's bounds.
    fn collect_internal(&mut self, query: &BoundedEvidenceQuery, only_source: Option<IntelligenceSource>) -> (r: Result<IntelligenceSnapshot, IntelligenceError>)
        ensures
            final(self).spec_ledger().wf(),
            r matches Ok(snap) && collected(snap, *query, only_source, final(self).spec_ledger(), final(self).spec_health()),
            final(self).spec_adapters().len() == old(self).spec_adapters().len(),
            forall|k: int| 0 <= k < old(self).spec_adapters().len() ==> same_role(
                #[trigger] final(self).spec_adapters()[k],
                old(self).spec_adapters()[k],
            ),
            forall|k: int| 0 <= k < old(self).spec_adapters().len() && in_scope(old(self).spec_adapters()[k], only_source)
                ==> attempted_at(final(self).spec_health(), #[trigger] old(self).spec_adapters()[k].spec_source(), query.spec_as_of()),
            forall|s: IntelligenceSource| !touched(old(self).spec_adapters(), only_source, s, old(self).spec_adapters().len() as int)
                ==> #[trigger] final(self).spec_health().health(s) == old(self).spec_health().health(s),
            r matches Ok(snap) ==> forall|s: IntelligenceSource| #[trigger] snap.spec_disabled_sources().contains(s)
                <==> disabled_in_scope(old(self).spec_adapters(), only_source, s, old(self).spec_adapters().len() as int),
            ingested_from(old(self).spec_ledger(), *query, final(self).spec_ledger()),
    {
        proof {
            use_type_invariant(&*self);
        }
        let ghost start = self.adapters@;
        let ghost health0 = self.health;
        let mut adapters: Vec<A> = Vec::new();
        std::mem::swap(&mut adapters, &mut self.adapters);
        let mut ledger = LineageLedger::new();
        std::mem::swap(&mut ledger, &mut self.ledger);
        let ghost ledger0 = ledger;
        let ghost mut fed: Seq<IntelligenceEvidence> = Seq::empty();
        let ghost mut states: Seq<LineageLedger> = seq![ledger];
        let mut health = self.health;
        let mut source_errors: Vec<SourceError> = Vec::new();
        let mut disabled_sources: Vec<IntelligenceSource> = Vec::new();
        let ghost n = adapters@.len();
        let mut i: usize = 0;
        while i < adapters.len()
            invariant
                i <= adapters@.len(),
                adapters@.len() == n,
                n == start.len(),
                forall|k: int| 0 <= k < n ==> same_role(#[trigger] adapters@[k], start[k]),
                ledger.wf(),
                sources_ascending(disabled_sources@),
                forall|s: IntelligenceSource| #[trigger] disabled_sources@.contains(s) <==> disabled_in_scope(
                    start,
                    only_source,
                    s,
                    i as int,
                ),
                forall|k: int| 0 <= k < i && in_scope(start[k], only_source) ==> attempted_at(
                    health,
                    #[trigger] start[k].spec_source(),
                    query.spec_as_of(),
                ),
                forall|s: IntelligenceSource| !touched(start, only_source, s, i as int) ==> #[trigger] health.health(s)
                    == health0.health(s),
                ingest_trace(states, fed),
                same_ledger(states[0], ledger0),
                states.last() == ledger,
                forall|j: int| 0 <= j < fed.len() ==> query.admits(#[trigger] fed[j]),
            decreases adapters.len() - i,
        {
            let ghost health_before = health;
            let ghost disabled_before = disabled_sources@;
            let source = adapters[i].source();
            let skip = match only_source {
                Some(requested) => requested != source,
                None => false,
            };
            if !skip {
                if !adapters[i].is_enabled() {
                    health.record_disabled(source, query.as_of());
                    insert_source(&mut disabled_sources, source);
                } else {
                    let outcome = adapters[i].collect(query);
                    match outcome {
                        Ok(observations) => {
                            let mut invalid_observation = false;
                            let mut rest = observations;
                            while rest.len() > 0
                                invariant
                                    ledger.wf(),
                                    adapters@.len() == n,
                                    i < n,
                                    ingest_trace(states, fed),
                                    same_ledger(states[0], ledger0),
                                    states.last() == ledger,
                                    forall|j: int| 0 <= j < fed.len() ==> query.admits(#[trigger] fed[j]),
                                decreases rest.len(),
                            {
                                let observation = rest.remove(0);
                                if query.matches(&observation) {
                                    let ghost before = ledger;
                                    let ghost e = observation;
                                    let res = ledger.ingest(observation);
                                    proof {
                                        if evidence_fault(e) is None && event_index(before.spec_observations(), e) is None
                                            && lineage_of(before.spec_lineages(), e.event_fingerprint) is None {
                                            assert(fresh_lineage(before, e, ledger, res->Ok_0.lineage_id));
                                        }
                                        assert(ingest_step(before, e, ledger));
                                        let ghost old_fed = fed;
                                        let ghost old_states = states;
                                        fed = fed.push(e);
                                        states = states.push(ledger);
                                        assert forall|j: int| 0 <= j < fed.len() implies #[trigger] ingest_step(
                                            states[j],
                                            fed[j],
                                            states[j + 1],
                                        ) by {
                                            if j < old_fed.len() {
                                                assert(states[j] == old_states[j]);
                                                assert(states[j + 1] == old_states[j + 1]);
                                                assert(fed[j] == old_fed[j]);
                                            }
                                        }
                                    }
                                    match res {
                                        Ok(_) => {},
                                        Err(_) => {
                                            invalid_observation = true;
                                            source_errors.push(SourceError::new(source, SourceErrorCategory::InvalidData));
                                        },
                                    }
                                }
                            }
                            if invalid_observation {
                                health.record_failure(source, query.as_of(), SourceErrorCategory::InvalidData);
                            } else {
                                health.record_success(source, query.as_of());
                            }
                        },
                        Err(error) => {
                            health.record_failure(source, query.as_of(), error.category());
                            source_errors.push(error);
                        },
                    }
                }
            }
            proof {
                assert forall|s: IntelligenceSource| #[trigger] disabled_sources@.contains(s) <==> disabled_in_scope(
                    start,
                    only_source,
                    s,
                    i + 1,
                ) by {
                    if disabled_in_scope(start, only_source, s, i + 1) && !disabled_in_scope(start, only_source, s, i as int) {
                        let k = choose|k: int| 0 <= k < i + 1 && #[trigger] start[k].spec_source() == s && in_scope(start[k], only_source)
                            && !start[k].spec_active();
                        assert(k == i);
                    }
                    if disabled_in_scope(start, only_source, s, i as int) {
                        let k = choose|k: int| 0 <= k < i && #[trigger] start[k].spec_source() == s && in_scope(start[k], only_source)
                            && !start[k].spec_active();
                        assert(0 <= k < i + 1 && start[k].spec_source() == s);
                    }
                }
                assert forall|s: IntelligenceSource| !touched(start, only_source, s, i + 1) implies #[trigger] health.health(s)
                    == health0.health(s) by {
                    if touched(start, only_source, s, i as int) {
                        let k = choose|k: int| 0 <= k < i && #[trigger] start[k].spec_source() == s && in_scope(start[k], only_source);
                        assert(0 <= k < i + 1 && start[k].spec_source() == s);
                    }
                    if in_scope(start[i as int], only_source) {
                        assert(start[i as int].spec_source() == s ==> touched(start, only_source, s, i + 1));
                    }
                }
            }
            i = i + 1;
        }
        std::mem::swap(&mut adapters, &mut self.adapters);
        std::mem::swap(&mut ledger, &mut self.ledger);
        self.health = health;
        proof {
            assert(ingest_trace(states, fed));
        }
        let obs = self.ledger.observations();
        let mut pool: Vec<usize> = Vec::new();
        let mut k: usize = 0;
        while k < obs.len()
            invariant
                k <= obs@.len(),
                obs@ == self.ledger.spec_observations(),
                pool@ == reported_indices(obs@, *query, only_source, disabled_sources@, k as int),
                forall|j: int| 0 <= j < pool@.len() ==> (#[trigger] pool@[j]) < k,
            decreases obs.len() - k,
        {
            let o = &obs[k];
            let from_source = match only_source {
                Some(s) => s == o.source,
                None => true,
            };
            if from_source && !contains_source(&disabled_sources, o.source) && query.matches(o) {
                pool.push(k);
            }
            k = k + 1;
        }
        let ghost pool_view = pool@;
        let order = sort_indices(obs, pool);
        let ghost order_view = order@;
        let max_per_source = query.max_per_source();
        let max_results = query.max_results();
        let mut counts: [usize; 4] = [0, 0, 0, 0];
        let mut kept: Vec<usize> = Vec::new();
        let mut truncated = false;
        let mut m: usize = 0;
        while m < order.len()
            invariant
                m <= order@.len(),
                order@ == order_view,
                forall|j: int| 0 <= j < order@.len() ==> (#[trigger] order@[j]) < obs@.len(),
                kept@ == bounded(obs@, order@.subrange(0, m as int), max_per_source as nat, max_results as nat),
                kept@.len() <= m,
                forall|j: int| 0 <= j < kept@.len() ==> (#[trigger] kept@[j]) < obs@.len(),
                truncated == (kept@.len() < m),
                forall|s: IntelligenceSource| #[trigger] counts@[source_rank(s)] as nat == count_from(obs@, kept@, s),
                counts@.len() == 4,
            decreases order.len() - m,
        {
            let idx = order[m];
            let src = obs[idx].source;
            let r = src.rank() as usize;
            proof {
                let pre = order@.subrange(0, m as int);
                let post = order@.subrange(0, m + 1);
                assert(post.drop_last() =~= pre);
                assert(post.last() == idx);
                assert(counts@[source_rank(src)] as nat == count_from(obs@, kept@, src));
            }
            if counts[r] >= max_per_source || kept.len() >= max_results {
                truncated = true;
            } else {
                let ghost before = kept@;
                kept.push(idx);
                counts.set(r, counts[r] + 1);
                proof {
                    assert(kept@.drop_last() =~= before);
                    assert forall|s: IntelligenceSource| #[trigger] counts@[source_rank(s)] as nat == count_from(obs@, kept@, s) by {
                        if s == src {
                        } else {
                            assert(source_rank(s) != source_rank(src));
                        }
                    }
                }
            }
            m = m + 1;
        }
        proof {
            assert(order@.subrange(0, order@.len() as int) =~= order@);
        }
        let mut observations: Vec<IntelligenceEvidence> = Vec::new();
        let mut c: usize = 0;
        while c < kept.len()
            invariant
                c <= kept@.len(),
                forall|j: int| 0 <= j < kept@.len() ==> (#[trigger] kept@[j]) < obs@.len(),
                observations@.len() == c,
                forall|j: int| 0 <= j < c ==> evidence_same(#[trigger] observations@[j], obs@[kept@[j] as int]),
            decreases kept.len() - c,
        {
            observations.push(obs[kept[c]].clone());
            c = c + 1;
        }
        Ok(IntelligenceSnapshot {
            as_of: query.as_of(),
            observations,
            source_health: self.health,
            source_errors,
            disabled_sources,
            truncated,
        })
    }
}

/// The adapter takes part in a collection restricted to `only`.
pub open spec fn in_scope<A: IntelligenceSourceAdapter>(a: A, only: Option<IntelligenceSource>) -> bool {
    match only {
        Some(s) => a.spec_source() == s,
        None => true,
    }
}

/// Same source, same switch, same part in collection.
pub open spec fn same_role<A: IntelligenceSourceAdapter>(a: A, b: A) -> bool {
    &&& a.spec_source() == b.spec_source()
    &&& a.spec_switchable() == b.spec_switchable()
    &&& a.spec_active() == b.spec_active()
}

/// Some adapter in scope, before `upto`, reads the source.
pub open spec fn touched<A: IntelligenceSourceAdapter>(adapters: Seq<A>, only: Option<IntelligenceSource>, s: IntelligenceSource, upto: int) -> bool {
    exists|k: int| 0 <= k < upto && #[trigger] adapters[k].spec_source() == s && in_scope(adapters[k], only)
}

/// Some adapter in scope, before `upto`, reads the source and is switched
/// off.
pub open spec fn disabled_in_scope<A: IntelligenceSourceAdapter>(adapters: Seq<A>, only: Option<IntelligenceSource>, s: IntelligenceSource, upto: int) -> bool {
    exists|k: int| 0 <= k < upto && #[trigger] adapters[k].spec_source() == s && in_scope(adapters[k], only)
        && !adapters[k].spec_active()
}

/// The source's health records an attempt at `t`.
pub open spec fn attempted_at(h: SourceHealthRegistry, s: IntelligenceSource, t: Timestamp) -> bool {
    h.health(s) matches Some(x) && x.last_attempt == Some(t)
}

/// The ledger `after` is `before` having ingested, in order, records that
/// the query admits.
pub open spec fn ingested_from(before: LineageLedger, q: BoundedEvidenceQuery, after: LineageLedger) -> bool {
    exists|fed: Seq<IntelligenceEvidence>, states: Seq<LineageLedger>| #[trigger] ingest_trace(states, fed) && {
        &&& same_ledger(states[0], before)
        &&& same_ledger(states.last(), after)
        &&& forall|j: int| 0 <= j < fed.len() ==> q.admits(#[trigger] fed[j])
    }
}

proof fn lemma_source_inactive<A: IntelligenceSourceAdapter>(adapters: Seq<A>, source: IntelligenceSource, i: int)
    requires
        0 <= i,
        forall|k: int| 0 <= k < adapters.len() && #[trigger] adapters[k].spec_source() == source ==> !adapters[k].spec_active(),
    ensures
        !source_active(adapters, source, i),
    decreases adapters.len() - i,
{
    if i < adapters.len() && adapters[i].spec_source() != source {
        lemma_source_inactive(adapters, source, i + 1);
    }
}

/// Switching Polymarket off lasts: where every Polymarket adapter can be
/// switched, none takes part afterwards, and a later collection, which
/// keeps each adapter's role, reports Polymarket switched off whenever the
/// service has a Polymarket adapter.
pub proof fn polymarket_off_persists<A: IntelligenceSourceAdapter>(before: Seq<A>, after: Seq<A>, later: Seq<A>)
    requires
        switched(before, after, IntelligenceSource::Polymarket, false),
        forall|k: int| 0 <= k < before.len() && before[k].spec_source() == IntelligenceSource::Polymarket
            ==> #[trigger] before[k].spec_switchable(),
        later.len() == after.len(),
        forall|k: int| 0 <= k < after.len() ==> same_role(#[trigger] later[k], after[k]),
    ensures
        !source_active(after, IntelligenceSource::Polymarket, 0),
        !source_active(later, IntelligenceSource::Polymarket, 0),
        has_source(before, IntelligenceSource::Polymarket) ==> disabled_in_scope(
            later,
            None,
            IntelligenceSource::Polymarket,
            later.len() as int,
        ),
{
    assert forall|k: int| 0 <= k < after.len() && #[trigger] after[k].spec_source() == IntelligenceSource::Polymarket implies !after[k].spec_active() by {
        assert(switched_at(before[k], after[k], IntelligenceSource::Polymarket, false, true));
        assert(before[k].spec_switchable());
    }
    assert forall|k: int| 0 <= k < later.len() && #[trigger] later[k].spec_source() == IntelligenceSource::Polymarket implies !later[k].spec_active() by {
        assert(same_role(later[k], after[k]));
        assert(after[k].spec_source() == IntelligenceSource::Polymarket);
    }
    lemma_source_inactive(after, IntelligenceSource::Polymarket, 0);
    lemma_source_inactive(later, IntelligenceSource::Polymarket, 0);
    if has_source(before, IntelligenceSource::Polymarket) {
        let k = choose|k: int| 0 <= k < before.len() && (#[trigger] before[k]).spec_source() == IntelligenceSource::Polymarket;
        assert(switched_at(before[k], after[k], IntelligenceSource::Polymarket, false, true));
        assert(same_role(later[k], after[k]));
        assert(later[k].spec_source() == IntelligenceSource::Polymarket);
        assert(in_scope(later[k], None));
    }
}

/// A snapshot of a collection: its time, its health, its sorted switched-off
/// sources, and the ledger's reported records in collection order within
/// the caps, with `truncated` telling whether any was left out.
pub open spec fn collected(
    snap: IntelligenceSnapshot,
    q: BoundedEvidenceQuery,
    only: Option<IntelligenceSource>,
    ledger: LineageLedger,
    health: SourceHealthRegistry,
) -> bool {
    let obs = ledger.spec_observations();
    let disabled = snap.spec_disabled_sources();
    let pool = reported_indices(obs, q, only, disabled, obs.len() as int);
    &&& snap.spec_as_of() == q.spec_as_of()
    &&& snap.spec_source_health() == health
    &&& sources_ascending(disabled)
    &&& exists|order: Seq<usize>| {
        &&& #[trigger] order.to_multiset() == pool.to_multiset()
        &&& indices_in_order(obs, order)
        &&& (forall|j: int| 0 <= j < order.len() ==> (#[trigger] order[j]) < obs.len())
        &&& {
            let kept = bounded(obs, order, q.spec_max_per_source() as nat, q.spec_max_results() as nat);
            &&& snap.spec_observations().len() == kept.len()
            &&& (forall|j: int| 0 <= j < kept.len() ==> evidence_same(#[trigger] snap.spec_observations()[j], obs[kept[j] as int]))
            &&& snap.spec_truncated() == (kept.len() < order.len())
        }
    }
}

} // verus!
