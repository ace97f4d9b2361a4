//! Bounded evidence queries: a time, instruments of interest, an age limit
//! and result caps.

use vstd::prelude::*;

use crate::domain::instrument::{lemma_lex_total, lemma_lex_transitive, lex_lt, Instrument};
use crate::timestamp::{saturating_age, ts_lt, Timestamp};
use super::evidence::IntelligenceEvidence;
use super::IntelligenceError;

verus! {

/// The symbols of the instruments.
pub open spec fn syms(v: Seq<Instrument>) -> Seq<Seq<char>> {
    Seq::new(v.len(), |i: int| v[i]@)
}

pub open spec fn syms_ascending(s: Seq<Seq<char>>) -> bool {
    forall|i: int, j: int| 0 <= i < j < s.len() ==> lex_lt(#[trigger] s[i], #[trigger] s[j])
}

/// Adds an instrument to an ascending list, unless it is there already.
pub fn insert_instrument(v: &mut Vec<Instrument>, x: Instrument)
    requires
        syms_ascending(syms(old(v)@)),
    ensures
        syms_ascending(syms(final(v)@)),
        forall|s: Seq<char>| syms(final(v)@).contains(s) <==> (syms(old(v)@).contains(s) || s == x@),
{
    let ghost old_t = syms(v@);
    let mut i: usize = 0;
    while i < v.len() && v[i].precedes(&x)
        invariant
            i <= v@.len(),
            syms(v@) == old_t,
            syms_ascending(old_t),
            forall|k: int| 0 <= k < i ==> lex_lt(#[trigger] old_t[k], x@),
        decreases v.len() - i,
    {
        i = i + 1;
    }
    proof {
        assert forall|k: int| i <= k < old_t.len() implies !lex_lt(#[trigger] old_t[k], x@) by {
            if k > i as int {
                assert(lex_lt(old_t[i as int], old_t[k]));
                if lex_lt(old_t[k], x@) {
                    lemma_lex_transitive(old_t[i as int], old_t[k], x@);
                }
            }
        }
    }
    if i < v.len() && v[i].same_as(&x) {
        proof {
            assert forall|s: Seq<char>| syms(v@).contains(s) <==> (old_t.contains(s) || s == x@) by {
                if s == x@ {
                    assert(old_t[i as int] == s);
                }
            }
        }
        return;
    }
    proof {
        assert forall|k: int| i <= k < old_t.len() implies lex_lt(x@, #[trigger] old_t[k]) by {
            lemma_lex_total(x@, old_t[k]);
            if k == i as int {
                assert(old_t[k] == v@[k]@);
            } else {
                assert(lex_lt(old_t[i as int], old_t[k]));
                lemma_lex_total(x@, old_t[i as int]);
                if !(x@ =~= old_t[i as int]) && !lex_lt(old_t[i as int], x@) {
                    lemma_lex_transitive(x@, old_t[i as int], old_t[k]);
                }
            }
        }
    }
    let ghost xv = x@;
    v.insert(i, x);
    proof {
        let t = syms(v@);
        assert(t =~= old_t.insert(i as int, xv));
        assert(syms_ascending(t)) by {
            assert forall|a: int, b: int| 0 <= a < b < t.len() implies lex_lt(#[trigger] t[a], #[trigger] t[b]) by {
                if a < i as int && b < i as int {
                } else if a < i as int && b == i as int {
                } else if a < i as int {
                    assert(t[b] == old_t[b - 1]);
                } else if a == i as int {
                    assert(t[b] == old_t[b - 1]);
                } else {
                    assert(t[a] == old_t[a - 1] && t[b] == old_t[b - 1]);
                }
            }
        }
        assert forall|s: Seq<char>| t.contains(s) <==> (old_t.contains(s) || s == xv) by {
            if t.contains(s) {
                let k = choose|k: int| 0 <= k < t.len() && t[k] == s;
                if k < i as int {
                    assert(old_t[k] == s);
                } else if k > i as int {
                    assert(old_t[k - 1] == s);
                }
            }
            if old_t.contains(s) {
                let k = choose|k: int| 0 <= k < old_t.len() && old_t[k] == s;
                if k < i as int {
                    assert(t[k] == s);
                } else {
                    assert(t[k + 1] == s);
                }
            }
            if s == xv {
                assert(t[i as int] == s);
            }
        }
    }
}

#[derive(Debug, PartialEq, Eq)]
pub struct BoundedEvidenceQuery {
    as_of: Timestamp,
    instruments: Vec<Instrument>,
    max_age_seconds: Option<i64>,
    max_results: usize,
    max_per_source: usize,
}

/// An affected asset of the evidence is among the symbols.
pub open spec fn touches(e: IntelligenceEvidence, set: Seq<Seq<char>>) -> bool {
    exists|k: int| 0 <= k < e.affected_assets@.len() && set.contains((#[trigger] e.affected_assets@[k]).instrument@)
}

impl BoundedEvidenceQuery {
    pub closed spec fn spec_as_of(&self) -> Timestamp {
        self.as_of
    }

    pub closed spec fn spec_instruments(&self) -> Seq<Seq<char>> {
        syms(self.instruments@)
    }

    pub closed spec fn spec_max_age(&self) -> Option<i64> {
        self.max_age_seconds
    }

    pub closed spec fn spec_max_results(&self) -> usize {
        self.max_results
    }

    pub closed spec fn spec_max_per_source(&self) -> usize {
        self.max_per_source
    }

    pub closed spec fn wf(&self) -> bool {
        syms_ascending(syms(self.instruments@))
    }

    /// Whether evidence falls within the query: not after its time, within
    /// its age limit, and on one of its instruments when it names any.
    pub open spec fn admits(&self, e: IntelligenceEvidence) -> bool {
        &&& !(e.event_time matches Some(t) && ts_lt(self.spec_as_of(), t))
        &&& !(self.spec_max_age() matches Some(max_age) && e.event_time matches Some(t) && saturating_age(
            t.unix_seconds as int,
            self.spec_as_of().unix_seconds as int,
        ) > max_age)
        &&& (self.spec_instruments().len() == 0 || touches(e, self.spec_instruments()))
    }

    pub fn new(as_of: Timestamp, max_results: usize, max_per_source: usize) -> (r: Result<BoundedEvidenceQuery, IntelligenceError>)
        ensures
            (max_results == 0 || max_per_source == 0) ==> r == Err::<BoundedEvidenceQuery, IntelligenceError>(
                IntelligenceError::EmptyField { field: "query limits" },
            ),
            (max_results > 0 && max_per_source > 0) ==> (r matches Ok(q) && q.wf() && q.spec_as_of() == as_of
                && q.spec_instruments().len() == 0 && q.spec_max_age() is None && q.spec_max_results() == max_results
                && q.spec_max_per_source() == max_per_source),
    {
        if max_results == 0 || max_per_source == 0 {
            return Err(IntelligenceError::EmptyField { field: "query limits" });
        }
        let q = BoundedEvidenceQuery { as_of, instruments: Vec::new(), max_age_seconds: None, max_results, max_per_source };
        proof {
            assert(syms(q.instruments@) =~= Seq::<Seq<char>>::empty());
        }
        Ok(q)
    }

    /// The query with more instruments of interest.
    pub fn with_instruments(self, instruments: Vec<Instrument>) -> (q: BoundedEvidenceQuery)
        requires
            self.wf(),
        ensures
            q.wf(),
            forall|s: Seq<char>| q.spec_instruments().contains(s) <==> (self.spec_instruments().contains(s) || syms(instruments@).contains(s)),
            q.spec_as_of() == self.spec_as_of(),
            q.spec_max_age() == self.spec_max_age(),
            q.spec_max_results() == self.spec_max_results(),
            q.spec_max_per_source() == self.spec_max_per_source(),
    {
        let mut q = self;
        let mut i: usize = 0;
        while i < instruments.len()
            invariant
                i <= instruments@.len(),
                q.wf(),
                forall|s: Seq<char>| q.spec_instruments().contains(s) <==> (self.spec_instruments().contains(s)
                    || syms(instruments@.subrange(0, i as int)).contains(s)),
                q.spec_as_of() == self.spec_as_of(),
                q.spec_max_age() == self.spec_max_age(),
                q.spec_max_results() == self.spec_max_results(),
                q.spec_max_per_source() == self.spec_max_per_source(),
            decreases instruments.len() - i,
        {
            let ghost before = q.spec_instruments();
            let x = instruments[i].clone();
            assert(x@ == instruments@[i as int]@);
            insert_instrument(&mut q.instruments, x);
            proof {
                let pre = syms(instruments@.subrange(0, i as int));
                let post = syms(instruments@.subrange(0, i + 1));
                assert(post =~= pre.push(instruments@[i as int]@));
                assert forall|s: Seq<char>| q.spec_instruments().contains(s) <==> (self.spec_instruments().contains(s)
                    || post.contains(s)) by {
                    assert(q.spec_instruments().contains(s) <==> (before.contains(s) || s == x@));
                    assert(before.contains(s) <==> (self.spec_instruments().contains(s) || pre.contains(s)));
                    if post.contains(s) {
                        let k = choose|k: int| 0 <= k < post.len() && post[k] == s;
                        if k < pre.len() {
                            assert(pre[k] == s);
                        } else {
                            assert(s == x@);
                        }
                    }
                    if pre.contains(s) {
                        let k = choose|k: int| 0 <= k < pre.len() && pre[k] == s;
                        assert(post[k] == s);
                    }
                    if s == x@ {
                        assert(post[pre.len() as int] == s);
                    }
                }
            }
            i = i + 1;
        }
        proof {
            assert(instruments@.subrange(0, instruments@.len() as int) =~= instruments@);
        }
        q
    }

    pub fn with_max_age_seconds(self, max_age_seconds: i64) -> (r: Result<BoundedEvidenceQuery, IntelligenceError>)
        ensures
            max_age_seconds < 0 ==> r == Err::<BoundedEvidenceQuery, IntelligenceError>(
                IntelligenceError::NegativeValue { field: "max_age_seconds" },
            ),
            max_age_seconds >= 0 ==> (r matches Ok(q) && q.spec_max_age() == Some(max_age_seconds) && q.spec_as_of()
                == self.spec_as_of() && q.spec_instruments() == self.spec_instruments() && q.spec_max_results()
                == self.spec_max_results() && q.spec_max_per_source() == self.spec_max_per_source() && (self.wf() ==> q.wf())),
    {
        if max_age_seconds < 0 {
            return Err(IntelligenceError::NegativeValue { field: "max_age_seconds" });
        }
        let mut q = self;
        q.max_age_seconds = Some(max_age_seconds);
        Ok(q)
    }

    pub fn max_results(&self) -> (n: usize)
        ensures
            n == self.spec_max_results(),
    {
        self.max_results
    }

    pub fn max_per_source(&self) -> (n: usize)
        ensures
            n == self.spec_max_per_source(),
    {
        self.max_per_source
    }

    pub fn max_age_seconds(&self) -> (n: Option<i64>)
        ensures
            n == self.spec_max_age(),
    {
        self.max_age_seconds
    }

    pub fn instruments(&self) -> (v: &Vec<Instrument>)
        ensures
            syms(v@) == self.spec_instruments(),
    {
        &self.instruments
    }

    pub fn as_of(&self) -> (t: Timestamp)
        ensures
            t == self.spec_as_of(),
    {
        self.as_of
    }

    pub fn holds_symbol(&self, x: &Instrument) -> (b: bool)
        ensures
            b == self.spec_instruments().contains(x@),
    {
        let mut i: usize = 0;
        while i < self.instruments.len()
            invariant
                i <= self.instruments@.len(),
                forall|k: int| 0 <= k < i ==> (#[trigger] self.instruments@[k])@ != x@,
            decreases self.instruments.len() - i,
        {
            if self.instruments[i].same_as(x) {
                proof {
                    assert(self.spec_instruments()[i as int] == x@);
                }
                return true;
            }
            i = i + 1;
        }
        proof {
            if self.spec_instruments().contains(x@) {
                let k = choose|k: int| 0 <= k < self.spec_instruments().len() && self.spec_instruments()[k] == x@;
                assert(self.instruments@[k]@ == x@);
            }
        }
        false
    }

    pub fn matches(&self, evidence: &IntelligenceEvidence) -> (b: bool)
        ensures
            b == self.admits(*evidence),
    {
        match evidence.event_time {
            Some(t) => {
                if self.as_of.lt(&t) {
                    return false;
                }
                match self.max_age_seconds {
                    Some(max_age) => {
                        if self.as_of.seconds_since(&t) > max_age {
                            return false;
                        }
                    },
                    None => {},
                }
            },
            None => {},
        }
        if self.instruments.len() == 0 {
            return true;
        }
        let mut k: usize = 0;
        while k < evidence.affected_assets.len()
            invariant
                k <= evidence.affected_assets@.len(),
                self.spec_instruments().len() > 0,
                !(evidence.event_time matches Some(t) && ts_lt(self.spec_as_of(), t)),
                !(self.spec_max_age() matches Some(max_age) && evidence.event_time matches Some(t) && saturating_age(
                    t.unix_seconds as int,
                    self.spec_as_of().unix_seconds as int,
                ) > max_age),
                forall|j: int| 0 <= j < k ==> !self.spec_instruments().contains((#[trigger] evidence.affected_assets@[j]).instrument@),
            decreases evidence.affected_assets.len() - k,
        {
            if self.holds_symbol(&evidence.affected_assets[k].instrument) {
                assert(touches(*evidence, self.spec_instruments()));
                return true;
            }
            k = k + 1;
        }
        false
    }

    pub fn targets_instrument(&self, instrument: &Instrument) -> (b: bool)
        ensures
            b == (self.spec_instruments().len() > 0 && self.spec_instruments().contains(instrument@)),
    {
        self.instruments.len() > 0 && self.holds_symbol(instrument)
    }
}

impl Clone for BoundedEvidenceQuery {
    fn clone(&self) -> (q: BoundedEvidenceQuery)
        ensures
            q.spec_as_of() == self.spec_as_of(),
            q.spec_instruments() == self.spec_instruments(),
            q.spec_max_age() == self.spec_max_age(),
            q.spec_max_results() == self.spec_max_results(),
            q.spec_max_per_source() == self.spec_max_per_source(),
            q.wf() == self.wf(),
    {
        let mut instruments: Vec<Instrument> = Vec::new();
        let mut i: usize = 0;
        while i < self.instruments.len()
            invariant
                i <= self.instruments@.len(),
                instruments@.len() == i,
                forall|j: int| 0 <= j < i ==> #[trigger] instruments@[j] == self.instruments@[j],
            decreases self.instruments.len() - i,
        {
            instruments.push(self.instruments[i].clone());
            i = i + 1;
        }
        proof {
            assert(instruments@ =~= self.instruments@);
        }
        BoundedEvidenceQuery {
            as_of: self.as_of,
            instruments,
            max_age_seconds: self.max_age_seconds,
            max_results: self.max_results,
            max_per_source: self.max_per_source,
        }
    }
}

} // verus!
