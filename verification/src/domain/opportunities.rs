use vstd::prelude::*;
use vstd::multiset::Multiset;

use super::error::DomainError;
use super::evidence::{is_unit, unit_check, validate_unit};
use super::instrument::{lemma_lex_asymmetric, lemma_lex_irreflexive, lemma_lex_total, lemma_lex_transitive, lex_lt, Instrument};
use super::universe::{first_repeat_at, repeats_earlier};
use crate::dec::{units, Dec};

verus! {

broadcast use vstd::seq_lib::group_to_multiset_ensures;

#[derive(Debug, PartialEq, Eq)]
pub struct OpportunityCandidate {
    pub instrument: Instrument,
    pub opportunity_score: Dec,
}

impl OpportunityCandidate {
    pub fn new(instrument: Instrument, opportunity_score: Dec) -> (r: Result<OpportunityCandidate, DomainError>)
        ensures
            r is Ok <==> is_unit(opportunity_score),
            r matches Ok(c) ==> c.instrument == instrument && c.opportunity_score == opportunity_score,
            r matches Err(e) ==> Err::<(), DomainError>(e) == unit_check("opportunity score", opportunity_score),
    {
        validate_unit("opportunity score", opportunity_score)?;
        Ok(OpportunityCandidate { instrument, opportunity_score })
    }
}

#[derive(Debug, PartialEq, Eq)]
pub struct RankedOpportunity {
    pub rank: u32,
    pub instrument: Instrument,
    pub opportunity_score: Dec,
}

impl Clone for RankedOpportunity {
    fn clone(&self) -> (r: RankedOpportunity)
        ensures
            r == *self,
    {
        RankedOpportunity { rank: self.rank, instrument: self.instrument.clone(), opportunity_score: self.opportunity_score }
    }
}

impl RankedOpportunity {
    pub fn new(rank: u32, instrument: Instrument, opportunity_score: Dec) -> (r: Result<RankedOpportunity, DomainError>)
        ensures
            r is Ok <==> (rank > 0 && is_unit(opportunity_score)),
            r matches Ok(o) ==> o.rank == rank && o.instrument == instrument && o.opportunity_score == opportunity_score,
            r matches Err(e) ==> e == (if rank == 0 {
                DomainError::InvalidOpportunityRank
            } else {
                unit_check("opportunity score", opportunity_score)->Err_0
            }),
    {
        if rank == 0 {
            return Err(DomainError::InvalidOpportunityRank);
        }
        validate_unit("opportunity score", opportunity_score)?;
        Ok(RankedOpportunity { rank, instrument, opportunity_score })
    }
}

/// `a` ranks ahead of `b`: a higher score, or an equal score and an earlier symbol.
pub open spec fn ranks_before(a: OpportunityCandidate, b: OpportunityCandidate) -> bool {
    units(a.opportunity_score@) > units(b.opportunity_score@) || (units(a.opportunity_score@)
        == units(b.opportunity_score@) && lex_lt(a.instrument@, b.instrument@))
}

pub open spec fn candidate_symbols(s: Seq<OpportunityCandidate>) -> Seq<Seq<char>> {
    s.map_values(|c: OpportunityCandidate| c.instrument@)
}

pub open spec fn sorted_by_rank(s: Seq<OpportunityCandidate>) -> bool {
    forall|i: int, j: int| 0 <= i < j < s.len() ==> ranks_before(s[i], s[j])
}

/// `s` is `candidates` in ranking order.
pub open spec fn is_ranking_of(s: Seq<OpportunityCandidate>, candidates: Seq<OpportunityCandidate>) -> bool {
    &&& s.to_multiset() == candidates.to_multiset()
    &&& sorted_by_rank(s)
}

/// `ranked` numbers the ranking `s` from one.
pub open spec fn numbers(ranked: Seq<RankedOpportunity>, s: Seq<OpportunityCandidate>) -> bool {
    &&& ranked.len() == s.len()
    &&& forall|i: int|
        0 <= i < s.len() ==> (#[trigger] ranked[i]).rank == i + 1 && ranked[i].instrument
            == s[i].instrument && ranked[i].opportunity_score == s[i].opportunity_score
}

proof fn lemma_ranks_before_total(a: OpportunityCandidate, b: OpportunityCandidate)
    requires
        a.instrument@ != b.instrument@,
    ensures
        ranks_before(a, b) || ranks_before(b, a),
        !(ranks_before(a, b) && ranks_before(b, a)),
{
    lemma_lex_total(a.instrument@, b.instrument@);
    lemma_lex_asymmetric(a.instrument@, b.instrument@);
}

proof fn lemma_ranks_before_transitive(a: OpportunityCandidate, b: OpportunityCandidate, c: OpportunityCandidate)
    requires
        ranks_before(a, b),
        ranks_before(b, c),
    ensures
        ranks_before(a, c),
{
    if units(a.opportunity_score@) == units(b.opportunity_score@) && units(b.opportunity_score@)
        == units(c.opportunity_score@) {
        lemma_lex_transitive(a.instrument@, b.instrument@, c.instrument@);
    }
}

/// Whether `a` ranks ahead of `b`.
fn rank_ahead(a: &OpportunityCandidate, b: &OpportunityCandidate) -> (r: bool)
    ensures
        r == ranks_before(*a, *b),
{
    if b.opportunity_score.lt(&a.opportunity_score) {
        true
    } else if a.opportunity_score.eq_value(&b.opportunity_score) {
        a.instrument.precedes(&b.instrument)
    } else {
        false
    }
}

/// Orders distinct-instrument candidates by descending score, then by symbol.
fn sort_candidates(candidates: Vec<OpportunityCandidate>) -> (sorted: Vec<OpportunityCandidate>)
    requires
        forall|i: int, j: int|
            0 <= i < j < candidates@.len() ==> candidates@[i].instrument@ != candidates@[j].instrument@,
    ensures
        is_ranking_of(sorted@, candidates@),
{
    let ghost original = candidates@;
    let mut remaining = candidates;
    let mut sorted: Vec<OpportunityCandidate> = Vec::new();
    proof {
        assert(sorted@ =~= Seq::<OpportunityCandidate>::empty());
        assert(sorted@.to_multiset() =~= Multiset::empty());
        assert(sorted@.to_multiset().add(remaining@.to_multiset()) =~= original.to_multiset());
    }
    while remaining.len() > 0
        invariant
            sorted@.to_multiset().add(remaining@.to_multiset()) == original.to_multiset(),
            forall|i: int, j: int|
                0 <= i < j < remaining@.len() ==> remaining@[i].instrument@ != remaining@[j].instrument@,
            sorted_by_rank(sorted@),
            forall|i: int, k: int|
                0 <= i < sorted@.len() && 0 <= k < remaining@.len() ==> ranks_before(
                    sorted@[i],
                    remaining@[k],
                ),
        decreases remaining@.len(),
    {
        let mut best: usize = 0;
        let mut k: usize = 1;
        while k < remaining.len()
            invariant
                0 <= best < k <= remaining@.len(),
                forall|i: int, j: int|
                    0 <= i < j < remaining@.len() ==> remaining@[i].instrument@ != remaining@[j].instrument@,
                forall|m: int| 0 <= m < k && m != best ==> ranks_before(remaining@[best as int], #[trigger] remaining@[m]),
            decreases remaining@.len() - k,
        {
            if rank_ahead(&remaining[k], &remaining[best]) {
                proof {
                    assert forall|m: int| 0 <= m < k + 1 && m != k implies ranks_before(
                        remaining@[k as int],
                        #[trigger] remaining@[m],
                    ) by {
                        if m != best {
                            lemma_ranks_before_transitive(remaining@[k as int], remaining@[best as int], remaining@[m]);
                        }
                    }
                }
                best = k;
            } else {
                proof {
                    lemma_ranks_before_total(remaining@[k as int], remaining@[best as int]);
                }
            }
            k = k + 1;
        }
        let ghost before_remove = remaining@;
        let ghost before_sorted = sorted@;
        let item = remaining.remove(best);
        proof {
            assert(remaining@ =~= before_remove.remove(best as int));
            assert forall|m: int| 0 <= m < remaining@.len() implies ranks_before(item, #[trigger] remaining@[m]) by {
                if m < best {
                    assert(remaining@[m] == before_remove[m]);
                } else {
                    assert(remaining@[m] == before_remove[m + 1]);
                }
            }
            assert forall|i: int, j: int|
                0 <= i < j < remaining@.len() implies remaining@[i].instrument@ != remaining@[j].instrument@ by {
                let ii = if i < best { i } else { i + 1 };
                let jj = if j < best { j } else { j + 1 };
                assert(remaining@[i] == before_remove[ii]);
                assert(remaining@[j] == before_remove[jj]);
            }
        }
        sorted.push(item);
        proof {
            assert(sorted@ =~= before_sorted.push(item));
            assert(before_remove[best as int] == item);
            assert(remaining@.to_multiset() =~= before_remove.to_multiset().remove(item));
            assert(sorted@.to_multiset() =~= before_sorted.to_multiset().insert(item));
            assert(before_remove.to_multiset().contains(item));
            assert(sorted@.to_multiset().add(remaining@.to_multiset()) =~= original.to_multiset());
            assert forall|i: int, j: int| 0 <= i < j < sorted@.len() implies ranks_before(sorted@[i], sorted@[j]) by {
                if j == sorted@.len() - 1 {
                    assert(before_remove[best as int] == item);
                    assert(ranks_before(before_sorted[i], before_remove[best as int]));
                }
            }
            assert forall|i: int, k2: int|
                0 <= i < sorted@.len() && 0 <= k2 < remaining@.len() implies ranks_before(
                    sorted@[i],
                    remaining@[k2],
                ) by {
                let kk = if k2 < best { k2 } else { k2 + 1 };
                assert(remaining@[k2] == before_remove[kk]);
                if i < sorted@.len() - 1 {
                    assert(ranks_before(before_sorted[i], before_remove[kk]));
                }
            }
        }
    }
    proof {
        assert(remaining@ =~= Seq::<OpportunityCandidate>::empty());
        assert(remaining@.to_multiset() =~= Multiset::empty());
        assert(sorted@.to_multiset() =~= original.to_multiset());
    }
    sorted
}

/// Ranks candidates by descending opportunity score; ties go to the earlier
/// symbol. Ranks start at one.
pub fn rank_opportunities(candidates: Vec<OpportunityCandidate>) -> (r: Result<Vec<RankedOpportunity>, DomainError>)
    requires
        candidates@.len() < u32::MAX,
    ensures
        (exists|j: int| first_repeat_at(candidate_symbols(candidates@), j)) ==> (r matches Err(
            DomainError::DuplicateOpportunityInstrument(name),
        ) && exists|j: int|
            first_repeat_at(candidate_symbols(candidates@), j) && name@ == candidates@[j].instrument@),
        !(exists|j: int| first_repeat_at(candidate_symbols(candidates@), j)) ==> (exists|s: Seq<
            OpportunityCandidate,
        >|
            is_ranking_of(s, candidates@) && match r {
                Ok(ranked) => (forall|i: int| 0 <= i < s.len() ==> is_unit(#[trigger] s[i].opportunity_score)) && numbers(ranked@, s),
                Err(e) => exists|j: int|
                    0 <= j < s.len() && !is_unit(s[j].opportunity_score) && (forall|i: int|
                        0 <= i < j ==> is_unit(#[trigger] s[i].opportunity_score)) && e
                        == (DomainError::OutOfRange {
                        field: "opportunity score",
                        value: s[j].opportunity_score,
                    }),
            }),
{
    let ghost syms = candidate_symbols(candidates@);
    let mut j: usize = 0;
    while j < candidates.len()
        invariant
            syms == candidate_symbols(candidates@),
            j <= candidates@.len(),
            forall|a: int, b: int| 0 <= a < b < j ==> candidates@[a].instrument@ != candidates@[b].instrument@,
        decreases candidates@.len() - j,
    {
        let mut i: usize = 0;
        while i < j
            invariant
                syms == candidate_symbols(candidates@),
                i <= j < candidates@.len(),
                forall|a: int, b: int| 0 <= a < b < j ==> candidates@[a].instrument@ != candidates@[b].instrument@,
                forall|a: int| 0 <= a < i ==> candidates@[a].instrument@ != candidates@[j as int].instrument@,
            decreases j - i,
        {
            if candidates[i].instrument.same_as(&candidates[j].instrument) {
                proof {
                    assert(syms[i as int] == syms[j as int]);
                    assert(repeats_earlier(syms, j as int));
                    assert forall|k: int| 0 <= k < j implies !repeats_earlier(syms, k) by {
                        if repeats_earlier(syms, k) {
                            let a = choose|a: int| 0 <= a < k && syms[a] == syms[k];
                            assert(candidates@[a].instrument@ != candidates@[k].instrument@);
                        }
                    }
                    assert(first_repeat_at(syms, j as int));
                }
                return Err(DomainError::DuplicateOpportunityInstrument(candidates[j].instrument.to_symbol_string()));
            }
            i = i + 1;
        }
        j = j + 1;
    }
    proof {
        assert forall|k: int| !first_repeat_at(syms, k) by {
            if first_repeat_at(syms, k) {
                let a = choose|a: int| 0 <= a < k && syms[a] == syms[k];
                assert(candidates@[a].instrument@ != candidates@[k].instrument@);
            }
        }
    }
    let ghost original = candidates@;
    let sorted = sort_candidates(candidates);
    proof {
        assert(sorted@.len() == original.len()) by {
            assert(sorted@.to_multiset().len() == original.to_multiset().len());
        }
    }
    let mut ranked: Vec<RankedOpportunity> = Vec::new();
    let mut sorted_items = sorted;
    let ghost s = sorted_items@;
    let mut idx: usize = 0;
    // Consume the sorted candidates from the front, keeping their order.
    let mut reversed: Vec<OpportunityCandidate> = Vec::new();
    while sorted_items.len() > 0
        invariant
            reversed@.len() + sorted_items@.len() == s.len(),
            is_ranking_of(s, original),
            original == candidates@,
            forall|k: int| !first_repeat_at(candidate_symbols(original), k),
            forall|i: int| 0 <= i < sorted_items@.len() ==> sorted_items@[i] == s[i],
            forall|i: int| 0 <= i < reversed@.len() ==> reversed@[i] == s[s.len() - 1 - i],
        decreases sorted_items@.len(),
    {
        let item = sorted_items.pop().unwrap();
        reversed.push(item);
    }
    while reversed.len() > 0
        invariant
            idx + reversed@.len() == s.len(),
            is_ranking_of(s, original),
            original == candidates@,
            forall|k: int| !first_repeat_at(candidate_symbols(original), k),
            s.len() < u32::MAX,
            forall|i: int| 0 <= i < reversed@.len() ==> reversed@[i] == s[s.len() - 1 - i],
            ranked@.len() == idx,
            forall|i: int| 0 <= i < idx ==> is_unit(#[trigger] s[i].opportunity_score),
            forall|i: int|
                0 <= i < idx ==> (#[trigger] ranked@[i]).rank == i + 1 && ranked@[i].instrument
                    == s[i].instrument && ranked@[i].opportunity_score == s[i].opportunity_score,
        decreases reversed@.len(),
    {
        let item = reversed.pop().unwrap();
        let rank = (idx + 1) as u32;
        match RankedOpportunity::new(rank, item.instrument, item.opportunity_score) {
            Ok(o) => ranked.push(o),
            Err(e) => {
                proof {
                    assert(e == (DomainError::OutOfRange { field: "opportunity score", value: s[idx as int].opportunity_score }));
                    assert(is_ranking_of(s, original));
                }
                return Err(e);
            },
        }
        idx = idx + 1;
    }
    proof {
        assert(is_ranking_of(s, original));
        assert(numbers(ranked@, s));
    }
    Ok(ranked)
}

} // verus!
