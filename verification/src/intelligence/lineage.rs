//! Lineage of evidence: one record per source event, grouped into catalysts
//! by event fingerprint.

use vstd::prelude::*;

use crate::ids::{EvidenceId, LineageId};
use super::events::EventFingerprint;
use super::evidence::{evidence_fault, IntelligenceEvidence, IntelligenceSource};
use super::IntelligenceError;
use crate::text::str_eq;

verus! {

#[derive(Clone, Copy, Debug, PartialEq, Eq, Structural)]
pub enum IngestDisposition {
    NewCatalyst,
    UpdatedSourceEvent,
    RelatedEvidence,
}

#[derive(Clone, Copy, Debug, PartialEq, Eq, Structural)]
pub struct IngestOutcome {
    pub evidence_id: EvidenceId,
    pub lineage_id: LineageId,
    pub disposition: IngestDisposition,
}

/// The same source event: same source and same source event ID.
pub open spec fn same_event(a: IntelligenceEvidence, b: IntelligenceEvidence) -> bool {
    a.source == b.source && a.source_event_id@ == b.source_event_id@
}

/// The index of the record of the same source event, if any.
pub open spec fn event_index(obs: Seq<IntelligenceEvidence>, e: IntelligenceEvidence) -> Option<int> {
    if exists|k: int| 0 <= k < obs.len() && same_event(#[trigger] obs[k], e) {
        Some(choose|k: int| 0 <= k < obs.len() && same_event(#[trigger] obs[k], e))
    } else {
        None
    }
}

/// The lineage already given to a fingerprint, if any.
pub open spec fn lineage_of(ls: Seq<(EventFingerprint, LineageId)>, fp: EventFingerprint) -> Option<LineageId> {
    if exists|k: int| 0 <= k < ls.len() && (#[trigger] ls[k]).0.spec_text() == fp.spec_text() {
        Some(ls[choose|k: int| 0 <= k < ls.len() && (#[trigger] ls[k]).0.spec_text() == fp.spec_text()].1)
    } else {
        None
    }
}

/// Evidence records, one per source event, each with its lineage.
pub struct LineageLedger {
    observations: Vec<IntelligenceEvidence>,
    lineages: Vec<(EventFingerprint, LineageId)>,
}

impl LineageLedger {
    pub closed spec fn spec_observations(&self) -> Seq<IntelligenceEvidence> {
        self.observations@
    }

    pub closed spec fn spec_lineages(&self) -> Seq<(EventFingerprint, LineageId)> {
        self.lineages@
    }

    /// One record per source event, each with a lineage; one lineage per fingerprint.
    pub open spec fn wf(&self) -> bool {
        let obs = self.spec_observations();
        let ls = self.spec_lineages();
        &&& forall|i: int, j: int| 0 <= i < j < obs.len() ==> !same_event(#[trigger] obs[i], #[trigger] obs[j])
        &&& forall|i: int| 0 <= i < obs.len() ==> (#[trigger] obs[i]).lineage_id is Some
        &&& forall|i: int, j: int| 0 <= i < j < ls.len() ==> (#[trigger] ls[i]).0.spec_text() != (#[trigger] ls[j]).0.spec_text()
    }

    pub fn new() -> (l: LineageLedger)
        ensures
            l.wf(),
            l.spec_observations().len() == 0,
            l.spec_lineages().len() == 0,
    {
        LineageLedger { observations: Vec::new(), lineages: Vec::new() }
    }

    /// Records evidence. A source event seen before keeps its evidence and
    /// lineage IDs and its record is replaced; a new source event joins the
    /// lineage of its fingerprint, or starts a new one.
    pub fn ingest(&mut self, evidence: IntelligenceEvidence) -> (r: Result<IngestOutcome, IntelligenceError>)
        requires
            old(self).wf(),
        ensures
            final(self).wf(),
            evidence_fault(evidence) matches Some(e) ==> r == Err::<IngestOutcome, IntelligenceError>(e) && final(self).spec_observations()
                == old(self).spec_observations() && final(self).spec_lineages() == old(self).spec_lineages(),
            evidence_fault(evidence) is None ==> match event_index(old(self).spec_observations(), evidence) {
                Some(k) => {
                    let prior = old(self).spec_observations()[k];
                    &&& r == Ok::<IngestOutcome, IntelligenceError>(
                        IngestOutcome {
                            evidence_id: prior.evidence_id,
                            lineage_id: prior.lineage_id->0,
                            disposition: IngestDisposition::UpdatedSourceEvent,
                        },
                    )
                    &&& final(self).spec_observations() == old(self).spec_observations().update(
                        k,
                        IntelligenceEvidence { evidence_id: prior.evidence_id, lineage_id: prior.lineage_id, ..evidence },
                    )
                    &&& final(self).spec_lineages() == old(self).spec_lineages()
                },
                None => {
                    &&& r is Ok
                    &&& r->Ok_0.evidence_id == evidence.evidence_id
                    &&& final(self).spec_observations() == old(self).spec_observations().push(
                        IntelligenceEvidence { lineage_id: Some(r->Ok_0.lineage_id), ..evidence },
                    )
                    &&& match lineage_of(old(self).spec_lineages(), evidence.event_fingerprint) {
                        Some(l) => r->Ok_0.lineage_id == l && r->Ok_0.disposition == IngestDisposition::RelatedEvidence
                            && final(self).spec_lineages() == old(self).spec_lineages(),
                        None => r->Ok_0.disposition == IngestDisposition::NewCatalyst && r->Ok_0.lineage_id.0 != 0
                            && final(self).spec_lineages() == old(self).spec_lineages().push(
                            (evidence.event_fingerprint, r->Ok_0.lineage_id),
                        ),
                    }
                },
            },
    {
        match evidence.validate() {
            Ok(()) => {},
            Err(e) => return Err(e),
        }
        let mut k: usize = 0;
        while k < self.observations.len()
            invariant
                k <= self.observations@.len(),
                self.wf(),
                *self == *old(self),
                evidence_fault(evidence) is None,
                forall|j: int| 0 <= j < k ==> !same_event(#[trigger] self.observations@[j], evidence),
            decreases self.observations.len() - k,
        {
            let o = &self.observations[k];
            if o.source == evidence.source && str_eq(o.source_event_id.as_str(), evidence.source_event_id.as_str()) {
                assert(same_event(self.observations@[k as int], evidence));
                let evidence_id = o.evidence_id;
                let lineage_id = match o.lineage_id {
                    Some(l) => l,
                    None => return Err(IntelligenceError::EmptyField { field: "lineage_id" }),
                };
                proof {
                    let obs = self.observations@;
                    let c = choose|j: int| 0 <= j < obs.len() && same_event(#[trigger] obs[j], evidence);
                    if c != k as int {
                        if c < k as int {
                            assert(!same_event(obs[c], obs[k as int]));
                        } else {
                            assert(!same_event(obs[k as int], obs[c]));
                        }
                    }
                }
                let updated = IntelligenceEvidence { evidence_id, lineage_id: Some(lineage_id), ..evidence };
                let ghost before = self.observations@;
                self.observations.set(k, updated);
                proof {
                    let obs = self.observations@;
                    assert forall|i: int, j: int| 0 <= i < j < obs.len() implies !same_event(#[trigger] obs[i], #[trigger] obs[j]) by {
                        assert(!same_event(before[i], before[j]));
                    }
                }
                return Ok(IngestOutcome { evidence_id, lineage_id, disposition: IngestDisposition::UpdatedSourceEvent });
            }
            k = k + 1;
        }
        let mut m: usize = 0;
        while m < self.lineages.len() && !str_eq(self.lineages[m].0.as_str(), evidence.event_fingerprint.as_str())
            invariant
                m <= self.lineages@.len(),
                self.wf(),
                *self == *old(self),
                forall|j: int| 0 <= j < m ==> (#[trigger] self.lineages@[j]).0.spec_text() != evidence.event_fingerprint.spec_text(),
            decreases self.lineages.len() - m,
        {
            m = m + 1;
        }
        let known = if m < self.lineages.len() {
            proof {
                let ls = self.lineages@;
                let fp = evidence.event_fingerprint;
                let c = choose|k: int| 0 <= k < ls.len() && (#[trigger] ls[k]).0.spec_text() == fp.spec_text();
                if c != m as int {
                    if c < m as int {
                        assert(ls[c].0.spec_text() != ls[m as int].0.spec_text());
                    } else {
                        assert(ls[m as int].0.spec_text() != ls[c].0.spec_text());
                    }
                }
            }
            Some(self.lineages[m].1)
        } else {
            None
        };
        let (lineage_id, disposition) = match known {
            Some(l) => (l, IngestDisposition::RelatedEvidence),
            None => {
                let l = LineageId::new();
                let ghost before = self.lineages@;
                self.lineages.push((evidence.event_fingerprint.clone(), l));
                proof {
                    let ls = self.lineages@;
                    assert forall|i: int, j: int| 0 <= i < j < ls.len() implies (#[trigger] ls[i]).0.spec_text() != (#[trigger] ls[j]).0.spec_text() by {
                        if j < before.len() {
                            assert(before[i].0.spec_text() != before[j].0.spec_text());
                        } else {
                            assert(ls[i] == before[i]);
                        }
                    }
                }
                (l, IngestDisposition::NewCatalyst)
            },
        };
        let evidence_id = evidence.evidence_id;
        let ghost before = self.observations@;
        let ghost ev = evidence;
        self.observations.push(IntelligenceEvidence { lineage_id: Some(lineage_id), ..evidence });
        proof {
            let obs = self.observations@;
            assert forall|i: int, j: int| 0 <= i < j < obs.len() implies !same_event(#[trigger] obs[i], #[trigger] obs[j]) by {
                if j < before.len() {
                    assert(!same_event(before[i], before[j]));
                } else {
                    assert(obs[i] == before[i]);
                    assert(!same_event(before[i], ev));
                }
            }
        }
        Ok(IngestOutcome { evidence_id, lineage_id, disposition })
    }

    pub fn observations(&self) -> (s: &[IntelligenceEvidence])
        ensures
            s@ == self.spec_observations(),
    {
        self.observations.as_slice()
    }
}

/// The ledger `a` after `b` ingests `e` under the fresh lineage `l`: the
/// record joins with `l`, and `l` becomes the lineage of its fingerprint.
pub open spec fn fresh_lineage(b: LineageLedger, e: IntelligenceEvidence, a: LineageLedger, l: LineageId) -> bool {
    &&& l.0 != 0
    &&& a.spec_observations() == b.spec_observations().push(IntelligenceEvidence { lineage_id: Some(l), ..e })
    &&& a.spec_lineages() == b.spec_lineages().push((e.event_fingerprint, l))
}

/// One ingestion, as `ingest` performs it: an invalid record changes
/// nothing; a known source event has its record replaced, keeping its
/// identifiers; a new one joins the lineage of its fingerprint, or a fresh
/// lineage where the fingerprint is new.
pub open spec fn ingest_step(b: LineageLedger, e: IntelligenceEvidence, a: LineageLedger) -> bool {
    if evidence_fault(e) is Some {
        a.spec_observations() == b.spec_observations() && a.spec_lineages() == b.spec_lineages()
    } else {
        match event_index(b.spec_observations(), e) {
            Some(k) => {
                let prior = b.spec_observations()[k];
                &&& a.spec_observations() == b.spec_observations().update(
                    k,
                    IntelligenceEvidence { evidence_id: prior.evidence_id, lineage_id: prior.lineage_id, ..e },
                )
                &&& a.spec_lineages() == b.spec_lineages()
            },
            None => match lineage_of(b.spec_lineages(), e.event_fingerprint) {
                Some(l) => a.spec_observations() == b.spec_observations().push(
                    IntelligenceEvidence { lineage_id: Some(l), ..e },
                ) && a.spec_lineages() == b.spec_lineages(),
                None => exists|l: LineageId| #[trigger] fresh_lineage(b, e, a, l),
            },
        }
    }
}

/// `states` are the ledgers met while ingesting `evs` in order.
pub open spec fn ingest_trace(states: Seq<LineageLedger>, evs: Seq<IntelligenceEvidence>) -> bool {
    &&& states.len() == evs.len() + 1
    &&& forall|i: int| 0 <= i < evs.len() ==> #[trigger] ingest_step(states[i], evs[i], states[i + 1])
}

/// Two ledgers hold the same records and lineages.
pub open spec fn same_ledger(a: LineageLedger, b: LineageLedger) -> bool {
    a.spec_observations() == b.spec_observations() && a.spec_lineages() == b.spec_lineages()
}

} // verus!
