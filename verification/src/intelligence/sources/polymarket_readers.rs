//! Readers of Polymarket probabilities: the source adapter, and a reader
//! that merges what the MCP server and the REST APIs report.

use vstd::prelude::*;

use super::{IntelligenceSourceAdapter, SourceError};
use crate::domain::instrument::lex_lt;
use crate::intelligence::evidence::{IntelligenceEvidence, IntelligenceSource};
use crate::intelligence::health::SourceErrorCategory;
use crate::intelligence::query::BoundedEvidenceQuery;
use super::polymarket::PolymarketMcpError;
use crate::text::str_eq;

verus! {

/// Something that reads Polymarket evidence for a query.
pub trait PolymarketReader {
    fn collect_polymarket(&mut self, query: &BoundedEvidenceQuery) -> Result<Vec<IntelligenceEvidence>, SourceError>;
}

/// The Polymarket source: a reader, switched on or off.
pub struct PolymarketAdapter<R> {
    reader: R,
    enabled: bool,
}

impl<R> PolymarketAdapter<R> {
    pub closed spec fn spec_enabled(&self) -> bool {
        self.enabled
    }

    /// An enabled adapter over the reader.
    pub fn new(reader: R) -> (a: PolymarketAdapter<R>)
        ensures
            a.spec_enabled(),
    {
        Self::with_enabled(reader, true)
    }

    pub fn with_enabled(reader: R, enabled: bool) -> (a: PolymarketAdapter<R>)
        ensures
            a.spec_enabled() == enabled,
    {
        PolymarketAdapter { reader, enabled }
    }
}

impl<R: PolymarketReader> IntelligenceSourceAdapter for PolymarketAdapter<R> {
    open spec fn spec_source(&self) -> IntelligenceSource {
        IntelligenceSource::Polymarket
    }

    open spec fn spec_switchable(&self) -> bool {
        true
    }

    open spec fn spec_active(&self) -> bool {
        self.spec_enabled()
    }

    fn source(&self) -> (s: IntelligenceSource) {
        IntelligenceSource::Polymarket
    }

    fn is_enabled(&self) -> (b: bool) {
        self.enabled
    }

    fn set_enabled(&mut self, enabled: bool)
        ensures
            final(self).spec_enabled() == enabled,
    {
        self.enabled = enabled;
    }

    /// A disabled adapter refuses with a `Disabled` Polymarket error and
    /// does not ask its reader.
    fn collect(&mut self, query: &BoundedEvidenceQuery) -> (r: Result<Vec<IntelligenceEvidence>, SourceError>)
        ensures
            !old(self).spec_enabled() ==> (r matches Err(e) && e.spec_source() == IntelligenceSource::Polymarket
                && e.spec_category() == SourceErrorCategory::Disabled),
            final(self).spec_enabled() == old(self).spec_enabled(),
    {
        if !self.enabled {
            return Err(SourceError::new(IntelligenceSource::Polymarket, SourceErrorCategory::Disabled));
        }
        self.reader.collect_polymarket(query)
    }
}

/// The source event identifiers of a merged list.
pub open spec fn merged_keys(v: Seq<(String, IntelligenceEvidence)>) -> Seq<Seq<char>> {
    Seq::new(v.len(), |i: int| v[i].0@)
}

/// Keys strictly ascending, each keeping the evidence filed under it.
pub open spec fn merged_wf(v: Seq<(String, IntelligenceEvidence)>) -> bool {
    &&& forall|i: int, j: int| 0 <= i < j < v.len() ==> lex_lt(#[trigger] v[i].0@, #[trigger] v[j].0@)
    &&& forall|i: int| 0 <= i < v.len() ==> (#[trigger] v[i]).1.source_event_id@ == v[i].0@
}

/// Files the evidence under its source event identifier, replacing what
/// was filed there.
fn merge_in(merged: &mut Vec<(String, IntelligenceEvidence)>, item: IntelligenceEvidence)
    requires
        merged_wf(old(merged)@),
    ensures
        merged_wf(final(merged)@),
        forall|k: Seq<char>| #[trigger] merged_keys(final(merged)@).contains(k) <==> (merged_keys(old(merged)@).contains(k)
            || k == item.source_event_id@),
        exists|i: int| 0 <= i < final(merged)@.len() && #[trigger] final(merged)@[i].1 == item,
{
    let key = String::from_str(item.source_event_id.as_str());
    let ghost old_v = merged@;
    let ghost kv = key@;
    let mut i: usize = 0;
    while i < merged.len() && crate::domain::instrument::text_precedes(merged[i].0.as_str(), key.as_str())
        invariant
            i <= merged@.len(),
            merged@ == old_v,
            merged_wf(old_v),
            kv == key@,
            forall|k: int| 0 <= k < i ==> lex_lt(#[trigger] old_v[k].0@, kv),
        decreases merged.len() - i,
    {
        i = i + 1;
    }
    proof {
        assert forall|k: int| i <= k < old_v.len() implies !lex_lt(#[trigger] old_v[k].0@, kv) by {
            if k > i as int {
                assert(lex_lt(old_v[i as int].0@, old_v[k].0@));
                if lex_lt(old_v[k].0@, kv) {
                    crate::domain::instrument::lemma_lex_transitive(old_v[i as int].0@, old_v[k].0@, kv);
                }
            }
        }
    }
    if i < merged.len() && str_eq(merged[i].0.as_str(), key.as_str()) {
        let _ = merged.remove(i);
        merged.insert(i, (key, item));
        proof {
            let nv = merged@;
            assert(nv =~= old_v.update(i as int, nv[i as int]));
            assert forall|a: int, b: int| 0 <= a < b < nv.len() implies lex_lt(#[trigger] nv[a].0@, #[trigger] nv[b].0@) by {
                assert(nv[a].0@ == old_v[a].0@);
                assert(nv[b].0@ == old_v[b].0@);
            }
            assert forall|k: Seq<char>| #[trigger] merged_keys(nv).contains(k) <==> (merged_keys(old_v).contains(k) || k
                == kv) by {
                if merged_keys(nv).contains(k) {
                    let j = choose|j: int| 0 <= j < nv.len() && merged_keys(nv)[j] == k;
                    assert(merged_keys(old_v)[j] == k);
                }
                if merged_keys(old_v).contains(k) {
                    let j = choose|j: int| 0 <= j < old_v.len() && merged_keys(old_v)[j] == k;
                    assert(merged_keys(nv)[j] == k);
                }
                if k == kv {
                    assert(merged_keys(nv)[i as int] == k);
                }
            }
            assert(nv[i as int].1 == item);
        }
        return;
    }
    proof {
        assert forall|k: int| i <= k < old_v.len() implies lex_lt(kv, #[trigger] old_v[k].0@) by {
            crate::domain::instrument::lemma_lex_total(kv, old_v[k].0@);
            if k > i as int {
                assert(lex_lt(old_v[i as int].0@, old_v[k].0@));
                crate::domain::instrument::lemma_lex_total(kv, old_v[i as int].0@);
                if !(kv =~= old_v[i as int].0@) && !lex_lt(old_v[i as int].0@, kv) {
                    crate::domain::instrument::lemma_lex_transitive(kv, old_v[i as int].0@, old_v[k].0@);
                }
            }
        }
    }
    let ghost entry = (key, item);
    merged.insert(i, (key, item));
    proof {
        let nv = merged@;
        assert(nv =~= old_v.insert(i as int, entry));
        assert forall|a: int, b: int| 0 <= a < b < nv.len() implies lex_lt(#[trigger] nv[a].0@, #[trigger] nv[b].0@) by {
            if a < i as int && b < i as int {
            } else if a < i as int && b == i as int {
            } else if a < i as int {
                assert(nv[b] == old_v[b - 1]);
            } else if a == i as int {
                assert(nv[b] == old_v[b - 1]);
            } else {
                assert(nv[a] == old_v[a - 1] && nv[b] == old_v[b - 1]);
            }
        }
        assert forall|a: int| 0 <= a < nv.len() implies (#[trigger] nv[a]).1.source_event_id@ == nv[a].0@ by {
            if a < i as int {
            } else if a > i as int {
                assert(nv[a] == old_v[a - 1]);
            }
        }
        assert forall|k: Seq<char>| #[trigger] merged_keys(nv).contains(k) <==> (merged_keys(old_v).contains(k) || k == kv) by {
            if merged_keys(nv).contains(k) {
                let j = choose|j: int| 0 <= j < nv.len() && merged_keys(nv)[j] == k;
                if j < i as int {
                    assert(merged_keys(old_v)[j] == k);
                } else if j > i as int {
                    assert(merged_keys(old_v)[j - 1] == k);
                }
            }
            if merged_keys(old_v).contains(k) {
                let j = choose|j: int| 0 <= j < old_v.len() && merged_keys(old_v)[j] == k;
                if j < i as int {
                    assert(merged_keys(nv)[j] == k);
                } else {
                    assert(merged_keys(nv)[j + 1] == k);
                }
            }
            if k == kv {
                assert(merged_keys(nv)[i as int] == k);
            }
        }
        assert(nv[i as int].1 == item);
    }
}

/// The source event identifiers of a list of evidence.
pub open spec fn event_keys(v: Seq<IntelligenceEvidence>) -> Seq<Seq<char>> {
    Seq::new(v.len(), |i: int| v[i].source_event_id@)
}

fn merge_all(merged: &mut Vec<(String, IntelligenceEvidence)>, items: Vec<IntelligenceEvidence>)
    requires
        merged_wf(old(merged)@),
    ensures
        merged_wf(final(merged)@),
        forall|k: Seq<char>| #[trigger] merged_keys(final(merged)@).contains(k) <==> (merged_keys(old(merged)@).contains(k)
            || event_keys(items@).contains(k)),
{
    let ghost all = items@;
    let ghost start = merged_keys(merged@);
    let mut rest = items;
    let mut n: usize = 0;
    proof {
        assert(all.subrange(0, all.len() as int) =~= all);
        assert(all.len() == items.len());
    }
    while rest.len() > 0
        invariant
            n <= all.len(),
            all.len() <= usize::MAX,
            rest@ == all.subrange(n as int, all.len() as int),
            merged_wf(merged@),
            forall|k: Seq<char>| #[trigger] merged_keys(merged@).contains(k) <==> (start.contains(k) || exists|j: int|
                0 <= j < n && all[j].source_event_id@ == k),
        decreases rest.len(),
    {
        let item = rest.remove(0);
        proof {
            assert(item == all[n as int]);
        }
        let ghost before = merged_keys(merged@);
        merge_in(merged, item);
        proof {
            assert forall|k: Seq<char>| #[trigger] merged_keys(merged@).contains(k) <==> (start.contains(k) || exists|j: int|
                0 <= j < n + 1 && all[j].source_event_id@ == k) by {
                if exists|j: int| 0 <= j < n + 1 && all[j].source_event_id@ == k {
                    let j = choose|j: int| 0 <= j < n + 1 && all[j].source_event_id@ == k;
                    if j < n as int {
                        assert(before.contains(k));
                    }
                }
            }
        }
        n = n + 1;
    }
    proof {
        assert forall|k: Seq<char>| #[trigger] merged_keys(merged@).contains(k) <==> (start.contains(k) || event_keys(all).contains(k)) by {
            if exists|j: int| 0 <= j < n && all[j].source_event_id@ == k {
                let j = choose|j: int| 0 <= j < n && all[j].source_event_id@ == k;
                assert(event_keys(all)[j] == k);
            }
            if event_keys(all).contains(k) {
                let j = choose|j: int| 0 <= j < all.len() && event_keys(all)[j] == k;
                assert(all[j].source_event_id@ == k);
            }
        }
    }
}

/// Reads through the MCP server and the REST APIs, whichever are present,
/// and merges what they find by source event: where both report an event,
/// the REST record is kept.
pub struct PolymarketHybridReader<M, R> {
    mcp: Option<M>,
    rest: Option<R>,
}

impl<M, R> PolymarketHybridReader<M, R> {
    pub closed spec fn spec_has_mcp(&self) -> bool {
        self.mcp is Some
    }

    pub closed spec fn spec_has_rest(&self) -> bool {
        self.rest is Some
    }

    /// Refused without any reader.
    pub fn new(mcp: Option<M>, rest: Option<R>) -> (r: Result<PolymarketHybridReader<M, R>, PolymarketMcpError>)
        ensures
            (mcp is None && rest is None) <==> r is Err,
            r matches Err(e) ==> e matches PolymarketMcpError::InvalidConfig(m) && m@
                == "at least one Polymarket reader is required"@,
            r matches Ok(h) ==> h.spec_has_mcp() == mcp is Some && h.spec_has_rest() == rest is Some,
    {
        if mcp.is_none() && rest.is_none() {
            return Err(PolymarketMcpError::InvalidConfig(String::from_str("at least one Polymarket reader is required")));
        }
        Ok(PolymarketHybridReader { mcp, rest })
    }
}

impl<M: PolymarketReader, R: PolymarketReader> PolymarketReader for PolymarketHybridReader<M, R> {
    /// Evidence in ascending order of source event identifier, one record
    /// per event; the first failure where nothing was found and a reader
    /// failed.
    fn collect_polymarket(&mut self, query: &BoundedEvidenceQuery) -> (r: Result<Vec<IntelligenceEvidence>, SourceError>)
        ensures
            r matches Ok(v) ==> forall|i: int, j: int| 0 <= i < j < v@.len() ==> lex_lt(
                #[trigger] v@[i].source_event_id@,
                #[trigger] v@[j].source_event_id@,
            ),
    {
        let mut errors: Vec<SourceError> = Vec::new();
        let mut merged: Vec<(String, IntelligenceEvidence)> = Vec::new();
        match &mut self.mcp {
            Some(mcp) => match mcp.collect_polymarket(query) {
                Ok(evidence) => merge_all(&mut merged, evidence),
                Err(error) => errors.push(error),
            },
            None => {},
        }
        match &mut self.rest {
            Some(rest) => match rest.collect_polymarket(query) {
                Ok(evidence) => merge_all(&mut merged, evidence),
                Err(error) => errors.push(error),
            },
            None => {},
        }
        if merged.len() == 0 && errors.len() > 0 {
            return Err(errors.remove(0));
        }
        let ghost m = merged@;
        let mut out: Vec<IntelligenceEvidence> = Vec::new();
        let mut rest_items = merged;
        let mut n: usize = 0;
        proof {
            assert(m.subrange(0, m.len() as int) =~= m);
            assert(m.len() == rest_items.len());
        }
        while rest_items.len() > 0
            invariant
                n <= m.len(),
                m.len() <= usize::MAX,
                merged_wf(m),
                rest_items@ == m.subrange(n as int, m.len() as int),
                out@.len() == n,
                forall|i: int| 0 <= i < n ==> (#[trigger] out@[i]) == m[i].1,
            decreases rest_items.len(),
        {
            let (_, item) = rest_items.remove(0);
            out.push(item);
            n = n + 1;
        }
        proof {
            assert forall|i: int, j: int| 0 <= i < j < out@.len() implies lex_lt(
                #[trigger] out@[i].source_event_id@,
                #[trigger] out@[j].source_event_id@,
            ) by {
                assert(m[i].1.source_event_id@ == m[i].0@);
                assert(m[j].1.source_event_id@ == m[j].0@);
            }
        }
        Ok(out)
    }
}

} // verus!
