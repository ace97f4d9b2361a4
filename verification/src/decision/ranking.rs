//! Attention ranking: every instrument of the universe scored from the
//! evidence about it, ranked, and given its evidence split by direction.

use vstd::prelude::*;

use super::{DecisionContext, DecisionError, PriorDecision};
use crate::dec::{decimal_add, decimal_mul, one_units, units, Dec, DecView};
use crate::domain::instrument::{lemma_lex_total, lemma_lex_transitive, lex_lt, Instrument};
use crate::domain::evidence::is_unit;
use crate::domain::opportunities::{is_ranking_of, numbers, rank_opportunities, ranks_before, OpportunityCandidate, RankedOpportunity};
use crate::domain::error::DomainError;
use crate::domain::opportunities::candidate_symbols;
use crate::domain::universe::{first_repeat_at, lemma_first_repeat, no_duplicates, symbols};
use crate::ids::EvidenceId;
use crate::intelligence::events::EventFingerprint;
use crate::intelligence::evidence::{evidence_same, AssetImpact, IntelligenceDirection, IntelligenceEvidence};
use crate::domain::instrument::text_precedes;
use crate::text::str_eq;

verus! {

broadcast use vstd::seq_lib::group_to_multiset_ensures;

/// An instrument's ranking with its evidence: supporting (bullish), counter
/// (bearish) and other, the event lineages behind it (ascending, each
/// once) and the evidence no earlier decision on it cited (ascending).
#[derive(Debug, PartialEq, Eq)]
pub struct RankedOpportunityContext {
    pub ranking: RankedOpportunity,
    pub supporting_evidence: Vec<IntelligenceEvidence>,
    pub counter_evidence: Vec<IntelligenceEvidence>,
    pub other_evidence: Vec<IntelligenceEvidence>,
    pub event_lineages: Vec<EventFingerprint>,
    pub new_evidence_ids: Vec<EvidenceId>,
}

/// The number of the first `k` impacts that concern the instrument.
pub open spec fn impact_hits(a: Seq<AssetImpact>, sym: Seq<char>, k: int) -> nat
    decreases k,
{
    if k <= 0 || k > a.len() {
        0
    } else {
        impact_hits(a, sym, k - 1) + if a[k - 1].instrument@ == sym {
            1nat
        } else {
            0nat
        }
    }
}

/// Which bucket a direction falls in: supporting, counter or other.
pub open spec fn bucket_of(d: IntelligenceDirection) -> int {
    match d {
        IntelligenceDirection::Bullish => 0,
        IntelligenceDirection::Bearish => 1,
        _ => 2,
    }
}

/// The evidence about the instrument among the first `i` records whose
/// direction falls in `bucket`, a record repeated once per impact on the
/// instrument.
pub open spec fn about(ev: Seq<IntelligenceEvidence>, sym: Seq<char>, bucket: int, i: int) -> Seq<IntelligenceEvidence>
    decreases i,
{
    if i <= 0 || i > ev.len() {
        Seq::empty()
    } else if bucket_of(ev[i - 1].direction) == bucket {
        about(ev, sym, bucket, i - 1) + Seq::new(
            impact_hits(ev[i - 1].affected_assets@, sym, ev[i - 1].affected_assets@.len() as int),
            |j: int| ev[i - 1],
        )
    } else {
        about(ev, sym, bucket, i - 1)
    }
}

/// Two sequences of evidence hold the same records, position by position.
pub open spec fn same_list(a: Seq<IntelligenceEvidence>, b: Seq<IntelligenceEvidence>) -> bool {
    a.len() == b.len() && forall|i: int| 0 <= i < a.len() ==> evidence_same(#[trigger] a[i], b[i])
}

/// The evidence record concerns the instrument.
pub open spec fn concerns(e: IntelligenceEvidence, sym: Seq<char>) -> bool {
    exists|k: int| 0 <= k < e.affected_assets@.len() && (#[trigger] e.affected_assets@[k]).instrument@ == sym
}

/// The relevance of the first impact on the instrument, zero where none.
pub open spec fn relevance_of(a: Seq<AssetImpact>, sym: Seq<char>, k: int) -> DecView
    decreases a.len() - k,
{
    if k < 0 || k >= a.len() {
        (0int, 0nat)
    } else if a[k].instrument@ == sym {
        a[k].relevance.spec_value()@
    } else {
        relevance_of(a, sym, k + 1)
    }
}

/// Strength, freshness, reliability and novelty are all given.
pub open spec fn complete(e: IntelligenceEvidence) -> bool {
    e.strength is Some && e.freshness is Some && e.reliability is Some && e.novelty is Some
}

/// The product of a record's scores and its relevance to the instrument,
/// each step by `Decimal`'s multiplication; none where a step overflows.
pub open spec fn item_value(e: IntelligenceEvidence, sym: Seq<char>) -> Option<DecView> {
    let s = e.strength->0.spec_value()@;
    let f = e.freshness->0.spec_value()@;
    let r = e.reliability->0.spec_value()@;
    let n = e.novelty->0.spec_value()@;
    let rel = relevance_of(e.affected_assets@, sym, 0);
    match decimal_mul(s, f) {
        Some(p1) => match decimal_mul(p1, r) {
            Some(p2) => match decimal_mul(p2, n) {
                Some(p3) => decimal_mul(p3, rel),
                None => None,
            },
            None => None,
        },
        None => None,
    }
}

/// The record counts towards attention: all its scores given and its
/// product defined.
pub open spec fn counts(e: IntelligenceEvidence, sym: Seq<char>) -> bool {
    complete(e) && item_value(e, sym) is Some
}

/// The event fingerprints of the counting records among the first `k`, in
/// first-seen order.
pub open spec fn events_seen(items: Seq<IntelligenceEvidence>, sym: Seq<char>, k: int) -> Seq<Seq<char>>
    decreases k,
{
    if k <= 0 || k > items.len() {
        Seq::empty()
    } else {
        let f = events_seen(items, sym, k - 1);
        let it = items[k - 1];
        if counts(it, sym) && !f.contains(it.event_fingerprint.spec_text()) {
            f.push(it.event_fingerprint.spec_text())
        } else {
            f
        }
    }
}

/// The largest value among the first `k` counting records of the event,
/// the later one where two are equal.
pub open spec fn event_best(items: Seq<IntelligenceEvidence>, sym: Seq<char>, fp: Seq<char>, k: int) -> Option<DecView>
    decreases k,
{
    if k <= 0 || k > items.len() {
        None
    } else {
        let prev = event_best(items, sym, fp, k - 1);
        let it = items[k - 1];
        if counts(it, sym) && it.event_fingerprint.spec_text() == fp {
            let v = item_value(it, sym)->0;
            match prev {
                Some(p) => Some(
                    if units(v) >= units(p) {
                        v
                    } else {
                        p
                    },
                ),
                None => Some(v),
            }
        } else {
            prev
        }
    }
}

/// The running total, capped at one, over the first `n` events; a sum that
/// `Decimal` cannot hold leaves the total as it was.
pub open spec fn capped_total(items: Seq<IntelligenceEvidence>, sym: Seq<char>, fps: Seq<Seq<char>>, n: int) -> DecView
    decreases n,
{
    if n <= 0 || n > fps.len() {
        (0int, 0nat)
    } else {
        let t = capped_total(items, sym, fps, n - 1);
        let v = event_best(items, sym, fps[n - 1], items.len() as int)->0;
        match decimal_add(t, v) {
            Some(s) => if units(s) <= units((1int, 0nat)) {
                s
            } else {
                (1int, 0nat)
            },
            None => t,
        }
    }
}

/// The attention an instrument gets from its evidence: per event the best
/// product of scores and relevance, summed over events and capped at one.
pub open spec fn attention(items: Seq<IntelligenceEvidence>, sym: Seq<char>) -> DecView {
    let fps = events_seen(items, sym, items.len() as int);
    capped_total(items, sym, fps, fps.len() as int)
}

/// The running total never exceeds one.
pub proof fn capped_total_at_most_one(items: Seq<IntelligenceEvidence>, sym: Seq<char>, fps: Seq<Seq<char>>, n: int)
    ensures
        units(capped_total(items, sym, fps, n)) <= one_units(),
    decreases n,
{
    crate::dec::lemma_pow10_positive(28);
    if n > 0 && n <= fps.len() {
        capped_total_at_most_one(items, sym, fps, n - 1);
    }
}

/// Attention is capped: no instrument's attention exceeds one.
pub proof fn attention_at_most_one(items: Seq<IntelligenceEvidence>, sym: Seq<char>)
    ensures
        units(attention(items, sym)) <= one_units(),
{
    let fps = events_seen(items, sym, items.len() as int);
    capped_total_at_most_one(items, sym, fps, fps.len() as int);
}

/// Per event, attention takes the best record: the contribution of an
/// event is at least the value of every counting record of that event, and
/// it is the value of one of them.
pub proof fn event_contribution_is_the_best(items: Seq<IntelligenceEvidence>, sym: Seq<char>, fp: Seq<char>, k: int)
    requires
        0 <= k <= items.len(),
    ensures
        forall|j: int|
            0 <= j < k && counts(items[j], sym) && items[j].event_fingerprint.spec_text() == fp ==> (event_best(
                items,
                sym,
                fp,
                k,
            ) matches Some(b) && units(b) >= units(#[trigger] item_value(items[j], sym)->0)),
        event_best(items, sym, fp, k) matches Some(b) ==> exists|j: int|
            0 <= j < k && counts(items[j], sym) && items[j].event_fingerprint.spec_text() == fp && b == #[trigger] item_value(
                items[j],
                sym,
            )->0,
    decreases k,
{
    if k > 0 {
        event_contribution_is_the_best(items, sym, fp, k - 1);
        let it = items[k - 1];
        if counts(it, sym) && it.event_fingerprint.spec_text() == fp {
            let v = item_value(it, sym)->0;
            match event_best(items, sym, fp, k - 1) {
                Some(p) => {
                    if units(v) < units(p) {
                        let j = choose|j: int|
                            0 <= j < k - 1 && counts(items[j], sym) && items[j].event_fingerprint.spec_text() == fp && p
                                == #[trigger] item_value(items[j], sym)->0;
                        assert(0 <= j < k && counts(items[j], sym) && items[j].event_fingerprint.spec_text() == fp);
                    } else {
                        assert(item_value(items[k - 1], sym)->0 == v);
                    }
                },
                None => {
                    assert(item_value(items[k - 1], sym)->0 == v);
                },
            }
        } else {
            if let Some(b) = event_best(items, sym, fp, k - 1) {
                let j = choose|j: int|
                    0 <= j < k - 1 && counts(items[j], sym) && items[j].event_fingerprint.spec_text() == fp && b
                        == #[trigger] item_value(items[j], sym)->0;
                assert(0 <= j < k && counts(items[j], sym) && items[j].event_fingerprint.spec_text() == fp);
            }
        }
    }
}

proof fn lemma_best_seen(items: Seq<IntelligenceEvidence>, sym: Seq<char>, fp: Seq<char>, k: int)
    requires
        0 <= k <= items.len(),
    ensures
        event_best(items, sym, fp, k) is Some <==> events_seen(items, sym, k).contains(fp),
    decreases k,
{
    if k > 0 {
        lemma_best_seen(items, sym, fp, k - 1);
        let f = events_seen(items, sym, k - 1);
        let it = items[k - 1];
        if counts(it, sym) && !f.contains(it.event_fingerprint.spec_text()) {
            let g = f.push(it.event_fingerprint.spec_text());
            if g.contains(fp) && fp != it.event_fingerprint.spec_text() {
                let m = choose|m: int| 0 <= m < g.len() && g[m] == fp;
                assert(f[m] == fp);
            }
            if f.contains(fp) {
                let m = choose|m: int| 0 <= m < f.len() && f[m] == fp;
                assert(g[m] == fp);
            }
            if fp == it.event_fingerprint.spec_text() {
                assert(g[f.len() as int] == fp);
            }
        } else if counts(it, sym) && fp == it.event_fingerprint.spec_text() {
        }
    }
}

fn relevance(impacts: &Vec<AssetImpact>, instrument: &Instrument) -> (d: Dec)
    ensures
        d@ == relevance_of(impacts@, instrument@, 0),
{
    let mut k: usize = 0;
    while k < impacts.len()
        invariant
            k <= impacts@.len(),
            relevance_of(impacts@, instrument@, 0) == relevance_of(impacts@, instrument@, k as int),
        decreases impacts.len() - k,
    {
        if impacts[k].instrument.same_as(instrument) {
            return impacts[k].relevance.value();
        }
        k = k + 1;
    }
    Dec::zero()
}

fn value_of(item: &IntelligenceEvidence, instrument: &Instrument) -> (r: Option<Dec>)
    ensures
        complete(*item) ==> match r {
            Some(d) => item_value(*item, instrument@) == Some(d@),
            None => item_value(*item, instrument@) is None,
        },
        !complete(*item) ==> r is None,
{
    let (strength, freshness, reliability, novelty) = match (item.strength, item.freshness, item.reliability, item.novelty) {
        (Some(s), Some(f), Some(r), Some(n)) => (s, f, r, n),
        _ => {
            return None;
        },
    };
    let rel = relevance(&item.affected_assets, instrument);
    let p1 = match strength.value().checked_mul(&freshness.value()) {
        Some(p) => p,
        None => {
            return None;
        },
    };
    let p2 = match p1.checked_mul(&reliability.value()) {
        Some(p) => p,
        None => {
            return None;
        },
    };
    let p3 = match p2.checked_mul(&novelty.value()) {
        Some(p) => p,
        None => {
            return None;
        },
    };
    p3.checked_mul(&rel)
}

/// The attention score of an instrument from the evidence about it.
pub fn attention_score(evidence: &Vec<IntelligenceEvidence>, instrument: &Instrument) -> (d: Dec)
    ensures
        d@ == attention(evidence@, instrument@),
{
    let ghost items = evidence@;
    let ghost sym = instrument@;
    let mut events: Vec<EventFingerprint> = Vec::new();
    let mut best: Vec<Dec> = Vec::new();
    let mut i: usize = 0;
    while i < evidence.len()
        invariant
            items == evidence@,
            sym == instrument@,
            i <= items.len(),
            events@.len() == best@.len(),
            events@.len() == events_seen(items, sym, i as int).len(),
            forall|j: int| 0 <= j < events@.len() ==> (#[trigger] events@[j]).spec_text() == events_seen(items, sym, i as int)[j],
            forall|j: int| 0 <= j < best@.len() ==> event_best(items, sym, events_seen(items, sym, i as int)[j], i as int)
                == Some((#[trigger] best@[j])@),
            forall|a: int, b: int| 0 <= a < b < events@.len() ==> events_seen(items, sym, i as int)[a] != events_seen(items, sym, i as int)[b],
        decreases evidence.len() - i,
    {
        let item = &evidence[i];
        let ghost before = events_seen(items, sym, i as int);
        let ghost after = events_seen(items, sym, i + 1);
        match value_of(item, instrument) {
            Some(value) => {
                let fp = item.event_fingerprint.as_str();
                let mut j: usize = 0;
                while j < events.len() && !str_eq(events[j].as_str(), fp)
                    invariant
                        j <= events@.len(),
                        forall|k: int| 0 <= k < j ==> (#[trigger] events@[k]).spec_text() != fp@,
                    decreases events.len() - j,
                {
                    j = j + 1;
                }
                let found = j < events.len();
                let ghost old_best = best@;
                if found {
                    let merged = best[j].max(&value);
                    best.set(j, merged);
                } else {
                    events.push(item.event_fingerprint.clone());
                    best.push(value);
                }
                proof {
                    assert(counts(items[i as int], sym));
                    if found {
                        assert(before.contains(fp@)) by {
                            assert(before[j as int] == fp@);
                        }
                        assert(after == before);
                    } else {
                        assert(!before.contains(fp@)) by {
                            if before.contains(fp@) {
                                let k = choose|k: int| 0 <= k < before.len() && before[k] == fp@;
                                assert(events@[k].spec_text() == fp@);
                            }
                        }
                        assert(after == before.push(fp@));
                    }
                    lemma_best_seen(items, sym, fp@, i as int);
                    assert forall|k: int| 0 <= k < best@.len() implies event_best(items, sym, after[k], i + 1)
                        == Some((#[trigger] best@[k])@) by {
                        if after[k] != fp@ {
                            assert(event_best(items, sym, after[k], i + 1) == event_best(items, sym, after[k], i as int));
                            if !found {
                                assert(k < old_best.len());
                            }
                            assert(best@[k] == old_best[k]);
                        } else if found {
                            assert(before[k] == before[j as int]);
                            assert(k == j as int);
                            assert(event_best(items, sym, fp@, i as int) == Some(old_best[j as int]@));
                        } else {
                            if k < old_best.len() {
                                assert(before[k] == fp@);
                                assert(before.contains(fp@));
                            }
                            assert(event_best(items, sym, fp@, i as int) is None);
                        }
                    }
                    assert forall|a: int, b: int| 0 <= a < b < events@.len() implies after[a] != after[b] by {
                        if !found && b == events@.len() - 1 {
                            assert(before[a] == after[a]);
                            if after[a] == after[b] {
                                assert(before.contains(fp@));
                            }
                        }
                    }
                }
            },
            None => {
                proof {
                    assert(!counts(items[i as int], sym));
                    assert(after == before);
                    assert forall|k: int| 0 <= k < best@.len() implies event_best(items, sym, after[k], i + 1)
                        == Some((#[trigger] best@[k])@) by {
                        assert(event_best(items, sym, after[k], i + 1) == event_best(items, sym, after[k], i as int));
                    }
                }
            },
        }
        i = i + 1;
    }
    let ghost fps = events_seen(items, sym, items.len() as int);
    let one = Dec::one();
    let mut total = Dec::zero();
    let mut n: usize = 0;
    while n < best.len()
        invariant
            n <= best@.len(),
            best@.len() == fps.len(),
            fps == events_seen(items, sym, items.len() as int),
            forall|j: int| 0 <= j < best@.len() ==> event_best(items, sym, fps[j], items.len() as int) == Some(
                (#[trigger] best@[j])@,
            ),
            total@ == capped_total(items, sym, fps, n as int),
            one@ == (1int, 0nat),
        decreases best.len() - n,
    {
        match total.checked_add(&best[n]) {
            Some(sum) => {
                total = sum.min(&one);
            },
            None => {},
        }
        n = n + 1;
    }
    total
}

/// All the evidence about the instrument among the first `i` records, a
/// record repeated once per impact on the instrument.
pub open spec fn about_all(ev: Seq<IntelligenceEvidence>, sym: Seq<char>, i: int) -> Seq<IntelligenceEvidence>
    decreases i,
{
    if i <= 0 || i > ev.len() {
        Seq::empty()
    } else {
        about_all(ev, sym, i - 1) + Seq::new(
            impact_hits(ev[i - 1].affected_assets@, sym, ev[i - 1].affected_assets@.len() as int),
            |j: int| ev[i - 1],
        )
    }
}

proof fn lemma_attention_same(a: Seq<IntelligenceEvidence>, b: Seq<IntelligenceEvidence>, sym: Seq<char>)
    requires
        same_list(a, b),
    ensures
        attention(a, sym) == attention(b, sym),
{
    assert forall|k: int| 0 <= k <= a.len() implies #[trigger] events_seen(a, sym, k) == events_seen(b, sym, k) by {
        lemma_seen_same(a, b, sym, k);
    }
    let fps = events_seen(a, sym, a.len() as int);
    assert forall|fp: Seq<char>, k: int| 0 <= k <= a.len() implies #[trigger] event_best(a, sym, fp, k) == event_best(b, sym, fp, k) by {
        lemma_best_same(a, b, sym, fp, k);
    }
    lemma_capped_same(a, b, sym, fps, fps.len() as int);
}

proof fn lemma_seen_same(a: Seq<IntelligenceEvidence>, b: Seq<IntelligenceEvidence>, sym: Seq<char>, k: int)
    requires
        same_list(a, b),
        0 <= k <= a.len(),
    ensures
        events_seen(a, sym, k) == events_seen(b, sym, k),
    decreases k,
{
    if k > 0 {
        lemma_seen_same(a, b, sym, k - 1);
        assert(evidence_same(a[k - 1], b[k - 1]));
    }
}

proof fn lemma_best_same(a: Seq<IntelligenceEvidence>, b: Seq<IntelligenceEvidence>, sym: Seq<char>, fp: Seq<char>, k: int)
    requires
        same_list(a, b),
        0 <= k <= a.len(),
    ensures
        event_best(a, sym, fp, k) == event_best(b, sym, fp, k),
    decreases k,
{
    if k > 0 {
        lemma_best_same(a, b, sym, fp, k - 1);
        assert(evidence_same(a[k - 1], b[k - 1]));
    }
}

proof fn lemma_capped_same(a: Seq<IntelligenceEvidence>, b: Seq<IntelligenceEvidence>, sym: Seq<char>, fps: Seq<Seq<char>>, n: int)
    requires
        same_list(a, b),
        forall|fp: Seq<char>, k: int| 0 <= k <= a.len() ==> #[trigger] event_best(a, sym, fp, k) == event_best(b, sym, fp, k),
    ensures
        capped_total(a, sym, fps, n) == capped_total(b, sym, fps, n),
    decreases n,
{
    if n > 0 && n <= fps.len() {
        lemma_capped_same(a, b, sym, fps, n - 1);
        assert(event_best(a, sym, fps[n - 1], a.len() as int) == event_best(b, sym, fps[n - 1], a.len() as int));
    }
}

/// The record concerns the instrument: some impact names it.
proof fn lemma_hits_concerns(a: Seq<AssetImpact>, sym: Seq<char>, k: int)
    requires
        0 <= k <= a.len(),
    ensures
        impact_hits(a, sym, k) > 0 <==> exists|m: int| 0 <= m < k && (#[trigger] a[m]).instrument@ == sym,
    decreases k,
{
    if k > 0 {
        lemma_hits_concerns(a, sym, k - 1);
    }
}

/// The evidence about one instrument, all of it and by bucket.
struct Gathered {
    all: Vec<IntelligenceEvidence>,
    supporting: Vec<IntelligenceEvidence>,
    counter: Vec<IntelligenceEvidence>,
    other: Vec<IntelligenceEvidence>,
}

/// The pointwise copy of `s` into `v`, with `extra` copies of `e` after it.
spec fn copies(v: Seq<IntelligenceEvidence>, s: Seq<IntelligenceEvidence>, e: IntelligenceEvidence, extra: nat) -> bool {
    &&& v.len() == s.len() + extra
    &&& forall|j: int| 0 <= j < s.len() ==> evidence_same(#[trigger] v[j], s[j])
    &&& forall|j: int| s.len() <= j < v.len() ==> evidence_same(#[trigger] v[j], e)
}

proof fn lemma_copies_step(v: Seq<IntelligenceEvidence>, s: Seq<IntelligenceEvidence>, e: IntelligenceEvidence, n: nat)
    requires
        copies(v, s, e, n),
    ensures
        same_list(v, s + Seq::new(n, |j: int| e)),
{
    let t = s + Seq::new(n, |j: int| e);
    assert forall|j: int| 0 <= j < v.len() implies evidence_same(#[trigger] v[j], t[j]) by {
        if j >= s.len() {
            assert(t[j] == e);
        }
    }
}

fn gather(evidence: &Vec<IntelligenceEvidence>, instrument: &Instrument) -> (g: Gathered)
    ensures
        same_list(g.all@, about_all(evidence@, instrument@, evidence@.len() as int)),
        same_list(g.supporting@, about(evidence@, instrument@, 0, evidence@.len() as int)),
        same_list(g.counter@, about(evidence@, instrument@, 1, evidence@.len() as int)),
        same_list(g.other@, about(evidence@, instrument@, 2, evidence@.len() as int)),
{
    let ghost ev = evidence@;
    let ghost sym = instrument@;
    let mut g = Gathered { all: Vec::new(), supporting: Vec::new(), counter: Vec::new(), other: Vec::new() };
    let mut i: usize = 0;
    while i < evidence.len()
        invariant
            ev == evidence@,
            sym == instrument@,
            i <= ev.len(),
            same_list(g.all@, about_all(ev, sym, i as int)),
            same_list(g.supporting@, about(ev, sym, 0, i as int)),
            same_list(g.counter@, about(ev, sym, 1, i as int)),
            same_list(g.other@, about(ev, sym, 2, i as int)),
        decreases evidence.len() - i,
    {
        let item = &evidence[i];
        let bucket: u8 = match item.direction {
            IntelligenceDirection::Bullish => 0,
            IntelligenceDirection::Bearish => 1,
            _ => 2,
        };
        let impacts = &item.affected_assets;
        let ghost s_all = about_all(ev, sym, i as int);
        let ghost s0 = about(ev, sym, 0, i as int);
        let ghost s1 = about(ev, sym, 1, i as int);
        let ghost s2 = about(ev, sym, 2, i as int);
        let mut k: usize = 0;
        while k < impacts.len()
            invariant
                i < ev.len(),
                *item == ev[i as int],
                impacts@ == ev[i as int].affected_assets@,
                bucket as int == bucket_of(ev[i as int].direction),
                k <= impacts@.len(),
                copies(g.all@, s_all, ev[i as int], impact_hits(impacts@, sym, k as int)),
                copies(g.supporting@, s0, ev[i as int], if bucket == 0 { impact_hits(impacts@, sym, k as int) } else { 0 }),
                copies(g.counter@, s1, ev[i as int], if bucket == 1 { impact_hits(impacts@, sym, k as int) } else { 0 }),
                copies(g.other@, s2, ev[i as int], if bucket == 2 { impact_hits(impacts@, sym, k as int) } else { 0 }),
                sym == instrument@,
            decreases impacts.len() - k,
        {
            if impacts[k].instrument.same_as(instrument) {
                g.all.push(item.clone());
                if bucket == 0 {
                    g.supporting.push(item.clone());
                } else if bucket == 1 {
                    g.counter.push(item.clone());
                } else {
                    g.other.push(item.clone());
                }
            }
            k = k + 1;
        }
        proof {
            let n = impact_hits(impacts@, sym, impacts@.len() as int);
            lemma_copies_step(g.all@, s_all, ev[i as int], n);
            assert(about_all(ev, sym, i + 1) == s_all + Seq::new(n, |j: int| ev[i as int]));
            lemma_copies_step(g.supporting@, s0, ev[i as int], if bucket == 0 { n } else { 0 });
            lemma_copies_step(g.counter@, s1, ev[i as int], if bucket == 1 { n } else { 0 });
            lemma_copies_step(g.other@, s2, ev[i as int], if bucket == 2 { n } else { 0 });
            if bucket == 0 {
                assert(about(ev, sym, 0, i + 1) == s0 + Seq::new(n, |j: int| ev[i as int]));
                assert(about(ev, sym, 1, i + 1) =~= s1 + Seq::new(0, |j: int| ev[i as int]));
                assert(about(ev, sym, 2, i + 1) =~= s2 + Seq::new(0, |j: int| ev[i as int]));
            } else if bucket == 1 {
                assert(about(ev, sym, 0, i + 1) =~= s0 + Seq::new(0, |j: int| ev[i as int]));
                assert(about(ev, sym, 1, i + 1) == s1 + Seq::new(n, |j: int| ev[i as int]));
                assert(about(ev, sym, 2, i + 1) =~= s2 + Seq::new(0, |j: int| ev[i as int]));
            } else {
                assert(about(ev, sym, 0, i + 1) =~= s0 + Seq::new(0, |j: int| ev[i as int]));
                assert(about(ev, sym, 1, i + 1) =~= s1 + Seq::new(0, |j: int| ev[i as int]));
                assert(about(ev, sym, 2, i + 1) == s2 + Seq::new(n, |j: int| ev[i as int]));
            }
        }
        i = i + 1;
    }
    g
}

/// The event fingerprints of the evidence about the instrument.
pub open spec fn lineage_set(ev: Seq<IntelligenceEvidence>, sym: Seq<char>) -> Set<Seq<char>> {
    Set::new(|t: Seq<char>| exists|i: int| 0 <= i < ev.len() && concerns(#[trigger] ev[i], sym) && ev[i].event_fingerprint.spec_text() == t)
}

/// The identifiers of the evidence about the instrument that no earlier
/// decision on the instrument cited.
pub open spec fn new_id_set(ev: Seq<IntelligenceEvidence>, sym: Seq<char>, priors: Seq<PriorDecision>) -> Set<u128> {
    Set::new(
        |x: u128|
            (exists|i: int| 0 <= i < ev.len() && concerns(#[trigger] ev[i], sym) && ev[i].evidence_id.0 == x) && !(exists|
                p: int,
            |
                0 <= p < priors.len() && (#[trigger] priors[p]).instrument@ == sym && super::id_set(priors[p].evidence_ids@).contains(
                    x,
                )),
    )
}

/// Strictly ascending identifiers.
pub open spec fn ids_ascending(s: Seq<EvidenceId>) -> bool {
    forall|a: int, b: int| 0 <= a < b < s.len() ==> (#[trigger] s[a]).0 < (#[trigger] s[b]).0
}

fn insert_id_sorted(v: &mut Vec<EvidenceId>, x: EvidenceId)
    requires
        ids_ascending(old(v)@),
    ensures
        ids_ascending(final(v)@),
        super::id_set(final(v)@) == super::id_set(old(v)@).insert(x.0),
{
    let ghost old_v = v@;
    let mut i: usize = 0;
    while i < v.len() && v[i].0 < x.0
        invariant
            i <= v@.len(),
            v@ == old_v,
            forall|k: int| 0 <= k < i ==> (#[trigger] old_v[k]).0 < x.0,
        decreases v.len() - i,
    {
        i = i + 1;
    }
    if i < v.len() && v[i].0 == x.0 {
        proof {
            assert(super::id_set(old_v).insert(x.0) =~= super::id_set(old_v)) by {
                assert(super::id_set(old_v).contains(x.0)) by {
                    assert(old_v[i as int].0 == x.0);
                }
            }
        }
        return;
    }
    v.insert(i, x);
    proof {
        let t = v@;
        assert(t =~= old_v.insert(i as int, x));
        assert forall|a: int, b: int| 0 <= a < b < t.len() implies (#[trigger] t[a]).0 < (#[trigger] t[b]).0 by {
            if a < i as int && b < i as int {
            } else if a < i as int && b == i as int {
            } else if a < i as int {
                assert(t[b] == old_v[b - 1]);
            } else if a == i as int {
                assert(t[b] == old_v[b - 1]);
                assert(old_v[i as int].0 >= x.0);
                if b - 1 > i as int {
                    assert(old_v[i as int].0 < old_v[b - 1].0);
                }
            } else {
                assert(t[a] == old_v[a - 1] && t[b] == old_v[b - 1]);
            }
        }
        assert(super::id_set(t) =~= super::id_set(old_v).insert(x.0)) by {
            assert forall|y: u128| super::id_set(t).contains(y) <==> super::id_set(old_v).insert(x.0).contains(y) by {
                if super::id_set(t).contains(y) {
                    let k = choose|k: int| 0 <= k < t.len() && t[k].0 == y;
                    if k < i as int {
                        assert(old_v[k].0 == y);
                    } else if k > i as int {
                        assert(old_v[k - 1].0 == y);
                    }
                }
                if super::id_set(old_v).contains(y) {
                    let k = choose|k: int| 0 <= k < old_v.len() && old_v[k].0 == y;
                    if k < i as int {
                        assert(t[k].0 == y);
                    } else {
                        assert(t[k + 1].0 == y);
                    }
                }
                if y == x.0 {
                    assert(t[i as int].0 == y);
                }
            }
        }
    }
}

fn prior_cites(priors: &Vec<PriorDecision>, instrument: &Instrument, x: u128) -> (b: bool)
    ensures
        b == exists|p: int| 0 <= p < priors@.len() && (#[trigger] priors@[p]).instrument@ == instrument@
            && super::id_set(priors@[p].evidence_ids@).contains(x),
{
    let mut p: usize = 0;
    while p < priors.len()
        invariant
            p <= priors@.len(),
            forall|q: int| 0 <= q < p ==> !((#[trigger] priors@[q]).instrument@ == instrument@ && super::id_set(
                priors@[q].evidence_ids@,
            ).contains(x)),
        decreases priors.len() - p,
    {
        if priors[p].instrument.same_as(instrument) {
            let ids = &priors[p].evidence_ids;
            let mut k: usize = 0;
            while k < ids.len()
                invariant
                    p < priors@.len(),
                    ids@ == priors@[p as int].evidence_ids@,
                    priors@[p as int].instrument@ == instrument@,
                    k <= ids@.len(),
                    forall|m: int| 0 <= m < k ==> (#[trigger] ids@[m]).0 != x,
                decreases ids.len() - k,
            {
                if ids[k].0 == x {
                    proof {
                        assert(super::id_set(priors@[p as int].evidence_ids@).contains(x));
                    }
                    return true;
                }
                k = k + 1;
            }
        }
        p = p + 1;
    }
    false
}

/// The lineages and the uncited evidence of the evidence about an
/// instrument.
fn lineages_and_new_ids(evidence: &Vec<IntelligenceEvidence>, instrument: &Instrument, priors: &Vec<PriorDecision>) -> (r: (
    Vec<EventFingerprint>,
    Vec<EvidenceId>,
))
    ensures
        crate::text::texts_ascending(crate::intelligence::events::fingerprint_texts(r.0@)),
        forall|t: Seq<char>| crate::intelligence::events::fingerprint_texts(r.0@).contains(t) <==> lineage_set(evidence@, instrument@).contains(t),
        ids_ascending(r.1@),
        super::id_set(r.1@) == new_id_set(evidence@, instrument@, priors@),
{
    let ghost ev = evidence@;
    let ghost sym = instrument@;
    let mut lineages: Vec<EventFingerprint> = Vec::new();
    let mut ids: Vec<EvidenceId> = Vec::new();
    let mut i: usize = 0;
    while i < evidence.len()
        invariant
            ev == evidence@,
            sym == instrument@,
            i <= ev.len(),
            crate::text::texts_ascending(crate::intelligence::events::fingerprint_texts(lineages@)),
            forall|t: Seq<char>| crate::intelligence::events::fingerprint_texts(lineages@).contains(t) <==> lineage_set(ev.subrange(0, i as int), sym).contains(t),
            ids_ascending(ids@),
            super::id_set(ids@) == new_id_set(ev.subrange(0, i as int), sym, priors@),
        decreases evidence.len() - i,
    {
        let item = &evidence[i];
        let mut hit = false;
        let mut k: usize = 0;
        while k < item.affected_assets.len()
            invariant
                i < ev.len(),
                *item == ev[i as int],
                k <= item.affected_assets@.len(),
                hit <==> exists|m: int| 0 <= m < k && (#[trigger] item.affected_assets@[m]).instrument@ == sym,
                sym == instrument@,
            decreases item.affected_assets.len() - k,
        {
            if item.affected_assets[k].instrument.same_as(instrument) {
                hit = true;
            }
            k = k + 1;
        }
        let ghost pre = ev.subrange(0, i as int);
        let ghost post = ev.subrange(0, i + 1);
        let ghost before_l = crate::intelligence::events::fingerprint_texts(lineages@);
        let ghost before_ids = super::id_set(ids@);
        proof {
            assert(post =~= pre.push(ev[i as int]));
            assert(hit == concerns(ev[i as int], sym));
        }
        if hit {
            crate::intelligence::events::insert_fingerprint(&mut lineages, item.event_fingerprint.clone());
            if !prior_cites(priors, instrument, item.evidence_id.0) {
                insert_id_sorted(&mut ids, item.evidence_id);
            }
        }
        proof {
            assert forall|t: Seq<char>| crate::intelligence::events::fingerprint_texts(lineages@).contains(t) <==> lineage_set(post, sym).contains(t) by {
                if lineage_set(post, sym).contains(t) {
                    let j = choose|j: int| 0 <= j < post.len() && concerns(#[trigger] post[j], sym) && post[j].event_fingerprint.spec_text() == t;
                    if j < i as int {
                        assert(pre[j] == post[j]);
                        assert(lineage_set(pre, sym).contains(t));
                    }
                }
                if lineage_set(pre, sym).contains(t) {
                    let j = choose|j: int| 0 <= j < pre.len() && concerns(#[trigger] pre[j], sym) && pre[j].event_fingerprint.spec_text() == t;
                    assert(post[j] == pre[j]);
                    assert(lineage_set(post, sym).contains(t));
                }
                if hit && t == ev[i as int].event_fingerprint.spec_text() {
                    assert(post[i as int] == ev[i as int]);
                    assert(lineage_set(post, sym).contains(t));
                }
            }
            assert(super::id_set(ids@) =~= new_id_set(post, sym, priors@)) by {
                assert forall|x: u128| super::id_set(ids@).contains(x) <==> new_id_set(post, sym, priors@).contains(x) by {
                    if new_id_set(post, sym, priors@).contains(x) {
                        let j = choose|j: int| 0 <= j < post.len() && concerns(#[trigger] post[j], sym) && post[j].evidence_id.0 == x;
                        if j < i as int {
                            assert(pre[j] == post[j]);
                            assert(new_id_set(pre, sym, priors@).contains(x));
                        }
                    }
                    if new_id_set(pre, sym, priors@).contains(x) {
                        let j = choose|j: int| 0 <= j < pre.len() && concerns(#[trigger] pre[j], sym) && pre[j].evidence_id.0 == x;
                        assert(post[j] == pre[j]);
                    }
                    if super::id_set(ids@).contains(x) && !before_ids.contains(x) {
                        assert(x == ev[i as int].evidence_id.0);
                        assert(post[i as int] == ev[i as int]);
                    }
                }
            }
        }
        i = i + 1;
    }
    proof {
        assert(ev.subrange(0, ev.len() as int) =~= ev);
    }
    (lineages, ids)
}

/// The attention an instrument gets from all the evidence about it.
pub open spec fn attention_of(ev: Seq<IntelligenceEvidence>, sym: Seq<char>) -> DecView {
    attention(about_all(ev, sym, ev.len() as int), sym)
}

/// The context of one ranked instrument is built from the evidence: its
/// buckets, lineages and uncited evidence.
pub open spec fn built_from(c: RankedOpportunityContext, ev: Seq<IntelligenceEvidence>, priors: Seq<PriorDecision>) -> bool {
    let sym = c.ranking.instrument@;
    &&& same_list(c.supporting_evidence@, about(ev, sym, 0, ev.len() as int))
    &&& same_list(c.counter_evidence@, about(ev, sym, 1, ev.len() as int))
    &&& same_list(c.other_evidence@, about(ev, sym, 2, ev.len() as int))
    &&& crate::text::texts_ascending(crate::intelligence::events::fingerprint_texts(c.event_lineages@))
    &&& (forall|t: Seq<char>| crate::intelligence::events::fingerprint_texts(c.event_lineages@).contains(t) <==> lineage_set(ev, sym).contains(t))
    &&& ids_ascending(c.new_evidence_ids@)
    &&& super::id_set(c.new_evidence_ids@) == new_id_set(ev, sym, priors)
}

/// A ranking of the universe by attention: every instrument numbered from
/// one, by descending attention and then by symbol, each with the context
/// built from the evidence.
pub open spec fn ranks_universe(v: Seq<RankedOpportunityContext>, universe: Seq<Seq<char>>, ev: Seq<IntelligenceEvidence>, priors: Seq<PriorDecision>) -> bool {
    &&& v.len() == universe.len()
    &&& forall|i: int| 0 <= i < v.len() ==> (#[trigger] v[i]).ranking.rank == i + 1
    &&& forall|i: int| 0 <= i < v.len() ==> universe.contains((#[trigger] v[i]).ranking.instrument@)
    &&& forall|i: int| 0 <= i < v.len() ==> (#[trigger] v[i]).ranking.opportunity_score@ == attention_of(ev, v[i].ranking.instrument@)
    &&& forall|i: int, j: int| 0 <= i < j < v.len() ==> {
        let a = (#[trigger] v[i]).ranking;
        let b = (#[trigger] v[j]).ranking;
        units(a.opportunity_score@) > units(b.opportunity_score@) || (units(a.opportunity_score@) == units(b.opportunity_score@)
            && lex_lt(a.instrument@, b.instrument@))
    }
    &&& forall|i: int| 0 <= i < v.len() ==> built_from(#[trigger] v[i], ev, priors)
}

/// Every instrument's attention lies in the unit interval, as an
/// opportunity score must.
pub open spec fn scores_in_unit(ev: Seq<IntelligenceEvidence>, universe: Seq<Seq<char>>) -> bool {
    forall|k: int| 0 <= k < universe.len() ==> 0 <= #[trigger] units(attention_of(ev, universe[k])) <= one_units()
}

/// Where the universe first repeats a symbol, if it does.
pub open spec fn j_repeat(universe: Seq<Seq<char>>) -> int {
    choose|j: int| first_repeat_at(universe, j)
}

/// Ranks the universe by the attention its evidence gives each instrument.
pub fn rank_context(context: &DecisionContext) -> (r: Result<Vec<RankedOpportunityContext>, DecisionError>)
    requires
        context.universe@.len() < u32::MAX,
    ensures
        r matches Ok(v) ==> ranks_universe(v@, context.universe@, context.evidence@, context.prior_decisions@),
        r matches Err(e) ==> e is Ranking,
        r is Ok <==> scores_in_unit(context.evidence@, context.universe@) && no_duplicates(context.universe@),
        scores_in_unit(context.evidence@, context.universe@) && first_repeat_at(context.universe@, j_repeat(context.universe@))
            ==> (r matches Err(DecisionError::Ranking(DomainError::DuplicateOpportunityInstrument(name))) && exists|j: int|
            first_repeat_at(context.universe@, j) && name@ == context.universe@[j]),
{
    let instruments = context.universe.instruments();
    let ghost ev = context.evidence@;
    let mut candidates: Vec<OpportunityCandidate> = Vec::new();
    let mut k: usize = 0;
    while k < instruments.len()
        invariant
            ev == context.evidence@,
            symbols(instruments@) == context.universe@,
            k <= instruments@.len(),
            candidates@.len() == k,
            forall|j: int| 0 <= j < k ==> (#[trigger] candidates@[j]).instrument@ == instruments@[j]@
                && candidates@[j].opportunity_score@ == attention_of(ev, instruments@[j]@),
            forall|j: int| 0 <= j < k ==> is_unit((#[trigger] candidates@[j]).opportunity_score),
        decreases instruments.len() - k,
    {
        let g = gather(&context.evidence, &instruments[k]);
        let score = attention_score(&g.all, &instruments[k]);
        proof {
            lemma_attention_same(g.all@, about_all(ev, instruments@[k as int]@, ev.len() as int), instruments@[k as int]@);
        }
        match OpportunityCandidate::new(instruments[k].clone(), score) {
            Ok(c) => {
                candidates.push(c);
            },
            Err(e) => {
                proof {
                    assert(symbols(instruments@)[k as int] == instruments@[k as int]@);
                    assert(!(0 <= units(attention_of(ev, context.universe@[k as int])) <= one_units()));
                }
                return Err(DecisionError::Ranking(e));
            },
        }
        k = k + 1;
    }
    let ghost cands = candidates@;
    proof {
        assert(candidate_symbols(cands) =~= context.universe@) by {
            assert forall|j: int| 0 <= j < cands.len() implies candidate_symbols(cands)[j] == context.universe@[j] by {
                assert(symbols(instruments@)[j] == instruments@[j]@);
            }
        }
        assert(scores_in_unit(ev, context.universe@)) by {
            assert forall|j: int| 0 <= j < context.universe@.len() implies 0 <= #[trigger] units(
                attention_of(ev, context.universe@[j]),
            ) <= one_units() by {
                assert(symbols(instruments@)[j] == instruments@[j]@);
                assert(is_unit(cands[j].opportunity_score));
            }
        }
        lemma_first_repeat(context.universe@);
    }
    let ranked = match rank_opportunities(candidates) {
        Ok(r) => r,
        Err(e) => {
            proof {
                if !(exists|j: int| first_repeat_at(candidate_symbols(cands), j)) {
                    let s = choose|s: Seq<OpportunityCandidate>|
                        is_ranking_of(s, cands) && exists|j: int| 0 <= j < s.len() && !is_unit(s[j].opportunity_score);
                    let j = choose|j: int| 0 <= j < s.len() && !is_unit(s[j].opportunity_score);
                    assert(s.to_multiset().count(s[j]) > 0);
                    assert(cands.to_multiset().count(s[j]) > 0);
                    assert(cands.contains(s[j]));
                    let m = choose|m: int| 0 <= m < cands.len() && cands[m] == s[j];
                    assert(is_unit(cands[m].opportunity_score));
                }
            }
            return Err(DecisionError::Ranking(e));
        },
    };
    let ghost s = choose|s: Seq<OpportunityCandidate>| is_ranking_of(s, cands) && numbers(ranked@, s);
    proof {
        assert forall|i: int| 0 <= i < s.len() implies cands.contains(#[trigger] s[i]) by {
            assert(s.to_multiset().count(s[i]) > 0);
            assert(cands.to_multiset().count(s[i]) > 0);
        }
        assert(s.len() == cands.len()) by {
            assert(s.to_multiset().len() == cands.to_multiset().len());
        }
    }
    let ghost ranked_v = ranked@;
    let total = ranked.len();
    let mut rest = ranked;
    let mut out: Vec<RankedOpportunityContext> = Vec::new();
    let mut n: usize = 0;
    while rest.len() > 0
        invariant
            ev == context.evidence@,
            n + rest@.len() == ranked_v.len(),
            ranked_v.len() == total,
            rest@ == ranked_v.subrange(n as int, ranked_v.len() as int),
            out@.len() == n,
            forall|i: int| 0 <= i < n ==> (#[trigger] out@[i]).ranking == ranked_v[i],
            forall|i: int| 0 <= i < n ==> built_from(#[trigger] out@[i], ev, context.prior_decisions@),
        decreases rest.len(),
    {
        let ranking = rest.remove(0);
        proof {
            assert(ranking == ranked_v[n as int]);
        }
        let g = gather(&context.evidence, &ranking.instrument);
        let (event_lineages, new_evidence_ids) = lineages_and_new_ids(&context.evidence, &ranking.instrument, &context.prior_decisions);
        out.push(RankedOpportunityContext {
            ranking,
            supporting_evidence: g.supporting,
            counter_evidence: g.counter,
            other_evidence: g.other,
            event_lineages,
            new_evidence_ids,
        });
        n = n + 1;
    }
    proof {
        assert forall|i: int| 0 <= i < out@.len() implies context.universe@.contains((#[trigger] out@[i]).ranking.instrument@)
            && out@[i].ranking.opportunity_score@ == attention_of(ev, out@[i].ranking.instrument@) by {
            assert(cands.contains(s[i]));
            let j = choose|j: int| 0 <= j < cands.len() && cands[j] == s[i];
            assert(symbols(instruments@)[j] == instruments@[j]@);
        }
        assert forall|i: int, j: int| 0 <= i < j < out@.len() implies {
            let a = (#[trigger] out@[i]).ranking;
            let b = (#[trigger] out@[j]).ranking;
            units(a.opportunity_score@) > units(b.opportunity_score@) || (units(a.opportunity_score@) == units(b.opportunity_score@)
                && lex_lt(a.instrument@, b.instrument@))
        } by {
            assert(ranks_before(s[i], s[j]));
        }
    }
    Ok(out)
}

/// A copy of a ranked context.
pub fn clone_ranked(c: &RankedOpportunityContext) -> (r: RankedOpportunityContext)
    ensures
        r.ranking == c.ranking,
        same_list(r.supporting_evidence@, c.supporting_evidence@),
        same_list(r.counter_evidence@, c.counter_evidence@),
        same_list(r.other_evidence@, c.other_evidence@),
        r.event_lineages@ == c.event_lineages@,
        r.new_evidence_ids@ == c.new_evidence_ids@,
{
    let mut event_lineages: Vec<EventFingerprint> = Vec::new();
    let mut i: usize = 0;
    while i < c.event_lineages.len()
        invariant
            i <= c.event_lineages@.len(),
            event_lineages@ == c.event_lineages@.subrange(0, i as int),
        decreases c.event_lineages.len() - i,
    {
        event_lineages.push(c.event_lineages[i].clone());
        proof {
            assert(c.event_lineages@.subrange(0, i + 1) =~= c.event_lineages@.subrange(0, i as int).push(c.event_lineages@[i as int]));
        }
        i = i + 1;
    }
    let mut new_evidence_ids: Vec<EvidenceId> = Vec::new();
    let mut j: usize = 0;
    while j < c.new_evidence_ids.len()
        invariant
            j <= c.new_evidence_ids@.len(),
            new_evidence_ids@ == c.new_evidence_ids@.subrange(0, j as int),
        decreases c.new_evidence_ids.len() - j,
    {
        new_evidence_ids.push(c.new_evidence_ids[j]);
        proof {
            assert(c.new_evidence_ids@.subrange(0, j + 1) =~= c.new_evidence_ids@.subrange(0, j as int).push(c.new_evidence_ids@[j as int]));
        }
        j = j + 1;
    }
    proof {
        assert(c.event_lineages@.subrange(0, c.event_lineages@.len() as int) =~= c.event_lineages@);
        assert(c.new_evidence_ids@.subrange(0, c.new_evidence_ids@.len() as int) =~= c.new_evidence_ids@);
    }
    RankedOpportunityContext {
        ranking: c.ranking.clone(),
        supporting_evidence: super::clone_evidence_list(c.supporting_evidence.as_slice()),
        counter_evidence: super::clone_evidence_list(c.counter_evidence.as_slice()),
        other_evidence: super::clone_evidence_list(c.other_evidence.as_slice()),
        event_lineages,
        new_evidence_ids,
    }
}

/// The first ranked candidate of the instrument, where there is one.
pub open spec fn ranked_index(ranked: Seq<RankedOpportunityContext>, sym: Seq<char>, k: int) -> Option<int>
    decreases ranked.len() - k,
{
    if k < 0 || k >= ranked.len() {
        None
    } else if ranked[k].ranking.instrument@ == sym {
        Some(k)
    } else {
        ranked_index(ranked, sym, k + 1)
    }
}

/// The instruments the trigger names first: those of an event, or the one
/// under review.
pub open spec fn trigger_symbols(t: super::DecisionTrigger) -> Seq<Seq<char>> {
    match t {
        super::DecisionTrigger::EventTriggered { instruments, .. } => Seq::new(instruments@.len(), |i: int| instruments@[i]@),
        super::DecisionTrigger::PositionReview { instrument, .. } => seq![instrument@],
        super::DecisionTrigger::OpportunityScan { .. } => Seq::empty(),
    }
}

/// The order of research priority over the first `k` triggered instruments:
/// each instrument once, its first ranked candidate where it has one.
pub open spec fn triggered_order(ts: Seq<Seq<char>>, ranked: Seq<RankedOpportunityContext>, k: int) -> (Seq<int>, Seq<Seq<char>>)
    decreases k,
{
    if k <= 0 || k > ts.len() {
        (Seq::empty(), Seq::empty())
    } else {
        let (picked, seen) = triggered_order(ts, ranked, k - 1);
        let t = ts[k - 1];
        if seen.contains(t) {
            (picked, seen)
        } else {
            match ranked_index(ranked, t, 0) {
                Some(j) => (picked.push(j), seen.push(t)),
                None => (picked, seen.push(t)),
            }
        }
    }
}

/// Then the first `k` ranked candidates whose instrument was not yet seen.
pub open spec fn ranked_order(ranked: Seq<RankedOpportunityContext>, start: (Seq<int>, Seq<Seq<char>>), k: int) -> (Seq<int>, Seq<Seq<char>>)
    decreases k,
{
    if k <= 0 || k > ranked.len() {
        start
    } else {
        let (picked, seen) = ranked_order(ranked, start, k - 1);
        let sym = ranked[k - 1].ranking.instrument@;
        if seen.contains(sym) {
            (picked, seen)
        } else {
            (picked.push(k - 1), seen.push(sym))
        }
    }
}

/// The positions of the candidates researched first, before the limit.
pub open spec fn research_priority(t: super::DecisionTrigger, ranked: Seq<RankedOpportunityContext>) -> Seq<int> {
    let ts = trigger_symbols(t);
    ranked_order(ranked, triggered_order(ts, ranked, ts.len() as int), ranked.len() as int).0
}

fn seen_contains(seen: &Vec<Instrument>, x: &Instrument) -> (b: bool)
    ensures
        b == symbols(seen@).contains(x@),
{
    let mut i: usize = 0;
    while i < seen.len()
        invariant
            i <= seen@.len(),
            forall|k: int| 0 <= k < i ==> seen@[k]@ != x@,
        decreases seen.len() - i,
    {
        if seen[i].same_as(x) {
            proof {
                assert(symbols(seen@)[i as int] == x@);
            }
            return true;
        }
        i = i + 1;
    }
    proof {
        if symbols(seen@).contains(x@) {
            let k = choose|k: int| 0 <= k < symbols(seen@).len() && symbols(seen@)[k] == x@;
            assert(seen@[k]@ == x@);
        }
    }
    false
}

fn find_ranked(ranked: &Vec<RankedOpportunityContext>, x: &Instrument) -> (r: Option<usize>)
    ensures
        r matches Some(j) ==> ranked_index(ranked@, x@, 0) == Some(j as int),
        r is None ==> ranked_index(ranked@, x@, 0) is None,
{
    let mut i: usize = 0;
    while i < ranked.len()
        invariant
            i <= ranked@.len(),
            ranked_index(ranked@, x@, 0) == ranked_index(ranked@, x@, i as int),
        decreases ranked.len() - i,
    {
        if ranked[i].ranking.instrument.same_as(x) {
            return Some(i);
        }
        i = i + 1;
    }
    None
}

/// The candidates to research: the trigger's instruments first, then the
/// rest by rank, each instrument once, at most `limit` of them.
pub fn prioritized_research_candidates(context: &DecisionContext, ranked: &Vec<RankedOpportunityContext>, limit: usize) -> (r: Vec<RankedOpportunityContext>)
    ensures
        ({
            let order = research_priority(context.trigger, ranked@);
            let n = if order.len() < limit { order.len() } else { limit as nat };
            &&& r@.len() == n
            &&& forall|i: int| 0 <= i < n ==> 0 <= order[i] < ranked@.len() && (#[trigger] r@[i]).ranking == ranked@[order[i]].ranking
                && same_list(r@[i].supporting_evidence@, ranked@[order[i]].supporting_evidence@)
                && same_list(r@[i].counter_evidence@, ranked@[order[i]].counter_evidence@)
                && same_list(r@[i].other_evidence@, ranked@[order[i]].other_evidence@)
                && r@[i].event_lineages@ == ranked@[order[i]].event_lineages@
                && r@[i].new_evidence_ids@ == ranked@[order[i]].new_evidence_ids@
        }),
{
    let mut seen: Vec<Instrument> = Vec::new();
    let mut picked: Vec<usize> = Vec::new();
    let triggered: Vec<Instrument> = match &context.trigger {
        super::DecisionTrigger::EventTriggered { instruments, .. } => crate::domain::universe::clone_instruments(instruments),
        super::DecisionTrigger::PositionReview { instrument, .. } => {
            let mut v: Vec<Instrument> = Vec::new();
            v.push(instrument.clone());
            v
        },
        super::DecisionTrigger::OpportunityScan { .. } => Vec::new(),
    };
    let ghost ts = trigger_symbols(context.trigger);
    proof {
        assert(symbols(triggered@) =~= ts);
    }
    let mut k: usize = 0;
    while k < triggered.len()
        invariant
            ts == symbols(triggered@),
            k <= triggered@.len(),
            picked@.map_values(|x: usize| x as int) == triggered_order(ts, ranked@, k as int).0,
            symbols(seen@) == triggered_order(ts, ranked@, k as int).1,
        decreases triggered.len() - k,
    {
        if !seen_contains(&seen, &triggered[k]) {
            let found = find_ranked(ranked, &triggered[k]);
            seen.push(triggered[k].clone());
            match found {
                Some(j) => {
                    picked.push(j);
                },
                None => {},
            }
            proof {
                assert(symbols(seen@) =~= triggered_order(ts, ranked@, k + 1).1);
                assert(picked@.map_values(|x: usize| x as int) =~= triggered_order(ts, ranked@, k + 1).0);
            }
        }
        k = k + 1;
    }
    let ghost start = triggered_order(ts, ranked@, ts.len() as int);
    let mut m: usize = 0;
    while m < ranked.len()
        invariant
            m <= ranked@.len(),
            picked@.map_values(|x: usize| x as int) == ranked_order(ranked@, start, m as int).0,
            symbols(seen@) == ranked_order(ranked@, start, m as int).1,
        decreases ranked.len() - m,
    {
        if !seen_contains(&seen, &ranked[m].ranking.instrument) {
            seen.push(ranked[m].ranking.instrument.clone());
            picked.push(m);
            proof {
                assert(symbols(seen@) =~= ranked_order(ranked@, start, m + 1).1);
                assert(picked@.map_values(|x: usize| x as int) =~= ranked_order(ranked@, start, m + 1).0);
            }
        }
        m = m + 1;
    }
    let ghost order = research_priority(context.trigger, ranked@);
    proof {
        lemma_picked_in_range(ts, ranked@);
    }
    let mut out: Vec<RankedOpportunityContext> = Vec::new();
    let mut i: usize = 0;
    while i < picked.len() && i < limit
        invariant
            picked@.map_values(|x: usize| x as int) == order,
            forall|q: int| 0 <= q < order.len() ==> 0 <= #[trigger] order[q] < ranked@.len(),
            i <= picked@.len(),
            i <= limit,
            out@.len() == i,
            forall|q: int| 0 <= q < i ==> (#[trigger] out@[q]).ranking == ranked@[order[q]].ranking
                && same_list(out@[q].supporting_evidence@, ranked@[order[q]].supporting_evidence@)
                && same_list(out@[q].counter_evidence@, ranked@[order[q]].counter_evidence@)
                && same_list(out@[q].other_evidence@, ranked@[order[q]].other_evidence@)
                && out@[q].event_lineages@ == ranked@[order[q]].event_lineages@
                && out@[q].new_evidence_ids@ == ranked@[order[q]].new_evidence_ids@,
        decreases picked.len() - i,
    {
        proof {
            assert(order[i as int] == picked@[i as int] as int);
        }
        out.push(clone_ranked(&ranked[picked[i]]));
        i = i + 1;
    }
    proof {
        assert(order.len() == picked@.len());
        assert(order == research_priority(context.trigger, ranked@));
        assert(out@.len() == (if order.len() < limit { order.len() } else { limit as nat }));
    }
    out
}

proof fn lemma_picked_in_range(ts: Seq<Seq<char>>, ranked: Seq<RankedOpportunityContext>)
    ensures
        forall|q: int| 0 <= q < ranked_order(ranked, triggered_order(ts, ranked, ts.len() as int), ranked.len() as int).0.len()
            ==> 0 <= #[trigger] ranked_order(ranked, triggered_order(ts, ranked, ts.len() as int), ranked.len() as int).0[q] < ranked.len(),
{
    lemma_triggered_in_range(ts, ranked, ts.len() as int);
    lemma_ranked_in_range(ranked, triggered_order(ts, ranked, ts.len() as int), ranked.len() as int);
}

proof fn lemma_index_range(ranked: Seq<RankedOpportunityContext>, sym: Seq<char>, k: int)
    ensures
        ranked_index(ranked, sym, k) matches Some(j) ==> 0 <= j < ranked.len(),
    decreases ranked.len() - k,
{
    if 0 <= k < ranked.len() && ranked[k].ranking.instrument@ != sym {
        lemma_index_range(ranked, sym, k + 1);
    }
}

proof fn lemma_triggered_in_range(ts: Seq<Seq<char>>, ranked: Seq<RankedOpportunityContext>, k: int)
    ensures
        forall|q: int| 0 <= q < triggered_order(ts, ranked, k).0.len() ==> 0 <= #[trigger] triggered_order(ts, ranked, k).0[q] < ranked.len(),
    decreases k,
{
    if k > 0 && k <= ts.len() {
        lemma_triggered_in_range(ts, ranked, k - 1);
        lemma_index_range(ranked, ts[k - 1], 0);
        let prev = triggered_order(ts, ranked, k - 1);
        let cur = triggered_order(ts, ranked, k);
        assert forall|q: int| 0 <= q < cur.0.len() implies 0 <= #[trigger] cur.0[q] < ranked.len() by {
            if q < prev.0.len() {
                assert(cur.0[q] == prev.0[q]);
            }
        }
    }
}

proof fn lemma_ranked_in_range(ranked: Seq<RankedOpportunityContext>, start: (Seq<int>, Seq<Seq<char>>), k: int)
    requires
        forall|q: int| 0 <= q < start.0.len() ==> 0 <= #[trigger] start.0[q] < ranked.len(),
    ensures
        forall|q: int| 0 <= q < ranked_order(ranked, start, k).0.len() ==> 0 <= #[trigger] ranked_order(ranked, start, k).0[q] < ranked.len(),
    decreases k,
{
    if k > 0 && k <= ranked.len() {
        lemma_ranked_in_range(ranked, start, k - 1);
        let prev = ranked_order(ranked, start, k - 1);
        let cur = ranked_order(ranked, start, k);
        assert forall|q: int| 0 <= q < cur.0.len() implies 0 <= #[trigger] cur.0[q] < ranked.len() by {
            if q < prev.0.len() {
                assert(cur.0[q] == prev.0[q]);
            }
        }
    }
}

} // verus!
