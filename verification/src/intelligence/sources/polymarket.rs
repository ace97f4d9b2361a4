//! Read-only Polymarket intelligence: market probabilities from the
//! Polymarket MCP server and from the public Gamma and CLOB APIs, with the
//! change of each market's probability since it was last seen.

use vstd::prelude::*;

use super::{IntelligenceSourceAdapter, SourceError};
use crate::atk::error::McpError;
use crate::dec::{decimal_sub, one_units, units, Dec};
use crate::domain::instrument::{lemma_lex_total, lemma_lex_transitive, lex_lt, valid_symbol, Instrument};
use crate::intelligence::evidence::{IntelligenceEvidence, IntelligenceSource, Probability, SignedValue};
use crate::intelligence::health::SourceErrorCategory;
use crate::intelligence::query::BoundedEvidenceQuery;
use crate::intelligence::{intelligence_error_text, IntelligenceError};
use crate::text::{concat, is_blank, str_eq, str_is_blank, texts};
use crate::timestamp::{ts_lt, Timestamp};

verus! {

#[derive(Debug, PartialEq, Eq)]
pub enum PolymarketRestError {
    Request(String),
    Timeout(String),
    HttpStatus { status: u16, body: String },
    InvalidData(String),
}

pub open spec fn rest_category(e: PolymarketRestError) -> SourceErrorCategory {
    match e {
        PolymarketRestError::HttpStatus { status, .. } => if status == 429 {
            SourceErrorCategory::RateLimited
        } else if status == 401 || status == 403 {
            SourceErrorCategory::Unauthorized
        } else if status == 408 {
            SourceErrorCategory::Timeout
        } else if 500 <= status <= 599 {
            SourceErrorCategory::Unavailable
        } else {
            SourceErrorCategory::MalformedResponse
        },
        PolymarketRestError::Timeout(_) => SourceErrorCategory::Timeout,
        PolymarketRestError::Request(_) => SourceErrorCategory::Unavailable,
        PolymarketRestError::InvalidData(_) => SourceErrorCategory::MalformedResponse,
    }
}

pub open spec fn rest_error_text(e: PolymarketRestError) -> Seq<char> {
    match e {
        PolymarketRestError::Request(s) => "Polymarket REST request failed: "@ + s@,
        PolymarketRestError::Timeout(s) => "Polymarket REST request timed out: "@ + s@,
        PolymarketRestError::HttpStatus { status, body } => "Polymarket REST returned HTTP "@ + crate::text::decimal_digits(
            status as nat,
        ) + ": "@ + body@,
        PolymarketRestError::InvalidData(s) => "invalid Polymarket REST data: "@ + s@,
    }
}

impl PolymarketRestError {
    /// The source error category the failure counts as.
    pub fn source_category(&self) -> (c: SourceErrorCategory)
        ensures
            c == rest_category(*self),
    {
        match self {
            PolymarketRestError::HttpStatus { status, .. } => {
                if *status == 429 {
                    SourceErrorCategory::RateLimited
                } else if *status == 401 || *status == 403 {
                    SourceErrorCategory::Unauthorized
                } else if *status == 408 {
                    SourceErrorCategory::Timeout
                } else if 500 <= *status && *status <= 599 {
                    SourceErrorCategory::Unavailable
                } else {
                    SourceErrorCategory::MalformedResponse
                }
            },
            PolymarketRestError::Timeout(_) => SourceErrorCategory::Timeout,
            PolymarketRestError::Request(_) => SourceErrorCategory::Unavailable,
            PolymarketRestError::InvalidData(_) => SourceErrorCategory::MalformedResponse,
        }
    }

    pub fn message(&self) -> (s: String)
        ensures
            s@ == rest_error_text(*self),
    {
        match self {
            PolymarketRestError::Request(s) => concat("Polymarket REST request failed: ", s.as_str()),
            PolymarketRestError::Timeout(s) => concat("Polymarket REST request timed out: ", s.as_str()),
            PolymarketRestError::HttpStatus { status, body } => {
                let digits = crate::text::u64_text(*status as u64);
                let head = concat("Polymarket REST returned HTTP ", digits.as_str());
                let head = concat(head.as_str(), ": ");
                concat(head.as_str(), body.as_str())
            },
            PolymarketRestError::InvalidData(s) => concat("invalid Polymarket REST data: ", s.as_str()),
        }
    }
}

#[derive(Debug, PartialEq, Eq)]
pub enum PolymarketMcpError {
    InvalidConfig(String),
    Transport(McpError),
    Protocol(String),
    InvalidData(String),
    Intelligence(IntelligenceError),
    Rest(PolymarketRestError),
}

pub open spec fn mcp_category(e: PolymarketMcpError) -> SourceErrorCategory {
    match e {
        PolymarketMcpError::Transport(McpError::RequestTimeout { .. }) => SourceErrorCategory::Timeout,
        PolymarketMcpError::Transport(McpError::ProcessExited) => SourceErrorCategory::ProcessFailure,
        PolymarketMcpError::Transport(McpError::Io(_)) => SourceErrorCategory::ProcessFailure,
        PolymarketMcpError::Transport(McpError::JsonRpc { .. }) => SourceErrorCategory::Unavailable,
        PolymarketMcpError::Rest(r) => rest_category(r),
        _ => SourceErrorCategory::MalformedResponse,
    }
}

pub open spec fn mcp_error_text(e: PolymarketMcpError) -> Seq<char> {
    match e {
        PolymarketMcpError::InvalidConfig(s) => "invalid Polymarket MCP configuration: "@ + s@,
        PolymarketMcpError::Transport(m) => "Polymarket MCP transport error: "@ + crate::atk::error::mcp_error_text(m),
        PolymarketMcpError::Protocol(s) => "Polymarket MCP protocol error: "@ + s@,
        PolymarketMcpError::InvalidData(s) => "invalid Polymarket MCP data: "@ + s@,
        PolymarketMcpError::Intelligence(i) => "invalid normalized intelligence data: "@ + intelligence_error_text(i),
        PolymarketMcpError::Rest(r) => "Polymarket REST error: "@ + rest_error_text(r),
    }
}

impl PolymarketMcpError {
    /// The source error category the failure counts as.
    pub fn source_category(&self) -> (c: SourceErrorCategory)
        ensures
            c == mcp_category(*self),
    {
        match self {
            PolymarketMcpError::Transport(McpError::RequestTimeout { .. }) => SourceErrorCategory::Timeout,
            PolymarketMcpError::Transport(McpError::ProcessExited) => SourceErrorCategory::ProcessFailure,
            PolymarketMcpError::Transport(McpError::Io(_)) => SourceErrorCategory::ProcessFailure,
            PolymarketMcpError::Transport(McpError::JsonRpc { .. }) => SourceErrorCategory::Unavailable,
            PolymarketMcpError::Rest(r) => r.source_category(),
            _ => SourceErrorCategory::MalformedResponse,
        }
    }

    pub fn message(&self) -> (s: String)
        ensures
            s@ == mcp_error_text(*self),
    {
        match self {
            PolymarketMcpError::InvalidConfig(s) => concat("invalid Polymarket MCP configuration: ", s.as_str()),
            PolymarketMcpError::Transport(m) => {
                let t = m.message();
                concat("Polymarket MCP transport error: ", t.as_str())
            },
            PolymarketMcpError::Protocol(s) => concat("Polymarket MCP protocol error: ", s.as_str()),
            PolymarketMcpError::InvalidData(s) => concat("invalid Polymarket MCP data: ", s.as_str()),
            PolymarketMcpError::Intelligence(i) => {
                let t = i.message();
                concat("invalid normalized intelligence data: ", t.as_str())
            },
            PolymarketMcpError::Rest(r) => {
                let t = r.message();
                concat("Polymarket REST error: ", t.as_str())
            },
        }
    }
}

/// One observed probability of a market outcome.
#[derive(Clone, Copy, Debug, PartialEq, Eq)]
pub struct ProbabilityObservation {
    pub observed_at: Timestamp,
    pub probability: Probability,
}

/// The recent probabilities of each market, at most `capacity` of them,
/// oldest first.
#[derive(Debug)]
pub struct ProbabilityHistory {
    capacity: usize,
    observations: Vec<(String, Vec<ProbabilityObservation>)>,
}

/// The observations kept for the market.
pub open spec fn kept_for(h: Seq<(String, Vec<ProbabilityObservation>)>, market: Seq<char>) -> Seq<ProbabilityObservation> {
    if exists|i: int| 0 <= i < h.len() && (#[trigger] h[i]).0@ == market {
        h[choose|i: int| 0 <= i < h.len() && (#[trigger] h[i]).0@ == market].1@
    } else {
        Seq::empty()
    }
}

/// Market keys occur once each.
pub open spec fn keys_distinct(h: Seq<(String, Vec<ProbabilityObservation>)>) -> bool {
    forall|i: int, j: int| 0 <= i < j < h.len() ==> (#[trigger] h[i]).0@ != (#[trigger] h[j]).0@
}

/// The last `cap` of the observations.
pub open spec fn last_n(s: Seq<ProbabilityObservation>, cap: nat) -> Seq<ProbabilityObservation> {
    if s.len() <= cap {
        s
    } else {
        s.subrange(s.len() - cap, s.len() as int)
    }
}

/// The change since the latest kept observation, where there is one.
pub open spec fn probability_change(prev: Seq<ProbabilityObservation>, p: DecView) -> Option<DecView> {
    if prev.len() == 0 {
        None
    } else {
        decimal_sub(p, prev.last().probability.spec_value()@)
    }
}

use crate::dec::DecView;

/// What recording gives: refusal of a blank market or an observation not
/// later than the latest kept one, else the change since the latest kept
/// observation; a change outside [-1, 1] is refused.
pub open spec fn record_result(
    prev: Seq<ProbabilityObservation>,
    market: Seq<char>,
    observed_at: Timestamp,
    p: DecView,
    r: Result<Option<SignedValue>, IntelligenceError>,
) -> bool {
    if is_blank(market) {
        r == Err::<Option<SignedValue>, IntelligenceError>(IntelligenceError::EmptyField { field: "market_id" })
    } else if prev.len() > 0 && !ts_lt(prev.last().observed_at, observed_at) {
        r == Err::<Option<SignedValue>, IntelligenceError>(IntelligenceError::OutOfOrderObservation)
    } else {
        match r {
            Ok(delta) => match probability_change(prev, p) {
                Some(d) => delta matches Some(v) && v.spec_value()@ == d,
                None => prev.len() == 0 && delta is None,
            },
            Err(e) => prev.len() > 0 && (probability_change(prev, p) is None || e is ScoreOutOfRange),
        }
    }
}

proof fn lemma_kept_at(h: Seq<(String, Vec<ProbabilityObservation>)>, i: int)
    requires
        keys_distinct(h),
        0 <= i < h.len(),
    ensures
        kept_for(h, h[i].0@) == h[i].1@,
{
    let j = choose|j: int| 0 <= j < h.len() && (#[trigger] h[j]).0@ == h[i].0@;
    if j != i {
        if j < i {
            assert(h[j].0@ != h[i].0@);
        } else {
            assert(h[i].0@ != h[j].0@);
        }
    }
}

proof fn lemma_kept_other(old_h: Seq<(String, Vec<ProbabilityObservation>)>, new_h: Seq<(String, Vec<ProbabilityObservation>)>, m: Seq<char>)
    requires
        keys_distinct(old_h),
        keys_distinct(new_h),
        forall|j: int| 0 <= j < old_h.len() && (#[trigger] old_h[j]).0@ == m ==> j < new_h.len() && new_h[j] == old_h[j],
        forall|j: int| 0 <= j < new_h.len() && (#[trigger] new_h[j]).0@ == m ==> j < old_h.len() && new_h[j] == old_h[j],
    ensures
        kept_for(new_h, m) == kept_for(old_h, m),
{
    if exists|i: int| 0 <= i < old_h.len() && (#[trigger] old_h[i]).0@ == m {
        let i = choose|i: int| 0 <= i < old_h.len() && (#[trigger] old_h[i]).0@ == m;
        lemma_kept_at(old_h, i);
        assert(new_h[i] == old_h[i]);
        lemma_kept_at(new_h, i);
    } else if exists|i: int| 0 <= i < new_h.len() && (#[trigger] new_h[i]).0@ == m {
        let i = choose|i: int| 0 <= i < new_h.len() && (#[trigger] new_h[i]).0@ == m;
        assert(old_h[i].0@ == m);
    }
}

impl ProbabilityHistory {
    pub closed spec fn spec_capacity(&self) -> nat {
        self.capacity as nat
    }

    pub closed spec fn spec_kept(&self, market: Seq<char>) -> Seq<ProbabilityObservation> {
        kept_for(self.observations@, market)
    }

    pub closed spec fn wf(&self) -> bool {
        &&& self.capacity > 0
        &&& keys_distinct(self.observations@)
        &&& forall|i: int| 0 <= i < self.observations@.len() ==> (#[trigger] self.observations@[i]).1@.len() <= self.capacity
    }

    /// An empty history keeping at most `capacity` observations per market.
    pub fn new(capacity: usize) -> (r: Result<ProbabilityHistory, IntelligenceError>)
        ensures
            capacity == 0 ==> r == Err::<ProbabilityHistory, IntelligenceError>(IntelligenceError::InvalidHistoryCapacity),
            capacity > 0 ==> (r matches Ok(h) && h.wf() && h.spec_capacity() == capacity && forall|m: Seq<char>|
                #[trigger] h.spec_kept(m).len() == 0),
    {
        if capacity == 0 {
            return Err(IntelligenceError::InvalidHistoryCapacity);
        }
        let h = ProbabilityHistory { capacity, observations: Vec::new() };
        assert forall|m: Seq<char>| #[trigger] h.spec_kept(m).len() == 0 by {
        }
        Ok(h)
    }

    fn index_of(&self, market_id: &str) -> (r: Option<usize>)
        ensures
            r matches Some(i) ==> i < self.observations@.len() && self.observations@[i as int].0@ == market_id@,
            r is None ==> forall|i: int| 0 <= i < self.observations@.len() ==> (#[trigger] self.observations@[i]).0@ != market_id@,
    {
        let mut i: usize = 0;
        while i < self.observations.len()
            invariant
                i <= self.observations@.len(),
                forall|k: int| 0 <= k < i ==> (#[trigger] self.observations@[k]).0@ != market_id@,
            decreases self.observations.len() - i,
        {
            if str_eq(self.observations[i].0.as_str(), market_id) {
                return Some(i);
            }
            i = i + 1;
        }
        None
    }

    /// Records a market's probability and gives its change since the
    /// latest kept observation. A blank market, an observation not later
    /// than the latest, or a change outside [-1, 1] is refused and leaves
    /// the history as it was; otherwise the market keeps its latest
    /// `capacity` observations.
    pub fn record(&mut self, market_id: &str, observed_at: Timestamp, probability: Probability) -> (r: Result<Option<SignedValue>, IntelligenceError>)
        requires
            old(self).wf(),
        ensures
            final(self).wf(),
            final(self).spec_capacity() == old(self).spec_capacity(),
            record_result(old(self).spec_kept(market_id@), market_id@, observed_at, probability.spec_value()@, r),
            r matches Ok(Some(v)) ==> -one_units() <= units(v.spec_value()@) <= one_units(),
            r is Ok ==> final(self).spec_kept(market_id@) == last_n(
                old(self).spec_kept(market_id@).push(ProbabilityObservation { observed_at, probability }),
                old(self).spec_capacity(),
            ),
            r is Ok ==> forall|m: Seq<char>| m != market_id@ ==> #[trigger] final(self).spec_kept(m) == old(self).spec_kept(m),
            r is Err ==> *final(self) == *old(self),
    {
        if str_is_blank(market_id) {
            return Err(IntelligenceError::EmptyField { field: "market_id" });
        }
        let found = self.index_of(market_id);
        let ghost h = self.observations@;
        let delta = match found {
            Some(i) => {
                proof {
                    lemma_kept_at(h, i as int);
                }
                let history = &self.observations[i].1;
                if history.len() > 0 {
                    let previous = history[history.len() - 1];
                    if !previous.observed_at.lt(&observed_at) {
                        return Err(IntelligenceError::OutOfOrderObservation);
                    }
                    let change = match probability.value().checked_sub(&previous.probability.value()) {
                        Some(c) => c,
                        None => {
                            return Err(IntelligenceError::OutOfOrderObservation);
                        },
                    };
                    match SignedValue::new(change) {
                        Ok(v) => Some(v),
                        Err(e) => {
                            return Err(e);
                        },
                    }
                } else {
                    None
                }
            },
            None => None,
        };
        let observation = ProbabilityObservation { observed_at, probability };
        let mut entries: Vec<(String, Vec<ProbabilityObservation>)> = Vec::new();
        std::mem::swap(&mut entries, &mut self.observations);
        let cap = self.capacity;
        match found {
            Some(i) => {
                let (key, mut history) = entries.remove(i);
                let ghost pre = history@;
                history.push(observation);
                let ghost all = history@;
                proof {
                    assert(all.subrange(0, all.len() as int) =~= all);
                }
                while history.len() > cap
                    invariant
                        cap > 0,
                        all.len() >= 1,
                        history@.len() >= (if all.len() <= cap { all.len() } else { cap as nat }),
                        history@.len() <= all.len(),
                        history@ =~= all.subrange(all.len() - history@.len(), all.len() as int),
                    decreases history.len(),
                {
                    history.remove(0);
                }
                proof {
                    assert(history@ =~= last_n(all, cap as nat));
                }
                entries.insert(i, (key, history));
                proof {
                    let nh = entries@;
                    assert(nh =~= h.update(i as int, (key, history)));
                    assert(keys_distinct(nh)) by {
                        assert forall|a: int, b: int| 0 <= a < b < nh.len() implies (#[trigger] nh[a]).0@ != (#[trigger] nh[b]).0@ by {
                            assert(nh[a].0@ == h[a].0@);
                            assert(nh[b].0@ == h[b].0@);
                        }
                    }
                    lemma_kept_at(nh, i as int);
                    assert forall|m: Seq<char>| m != market_id@ implies #[trigger] kept_for(nh, m) == kept_for(h, m) by {
                        lemma_kept_other(h, nh, m);
                    }
                }
            },
            None => {
                let mut history: Vec<ProbabilityObservation> = Vec::new();
                history.push(observation);
                entries.push((String::from_str(market_id), history));
                proof {
                    let nh = entries@;
                    assert(keys_distinct(nh)) by {
                        assert forall|a: int, b: int| 0 <= a < b < nh.len() implies (#[trigger] nh[a]).0@ != (#[trigger] nh[b]).0@ by {
                            if b == nh.len() - 1 {
                                assert(nh[a] == h[a]);
                            } else {
                                assert(nh[a] == h[a] && nh[b] == h[b]);
                            }
                        }
                    }
                    lemma_kept_at(nh, nh.len() - 1);
                    assert(kept_for(h, market_id@) =~= Seq::<ProbabilityObservation>::empty());
                    assert(last_n(Seq::<ProbabilityObservation>::empty().push(observation), cap as nat) =~= seq![observation]);
                    assert forall|m: Seq<char>| m != market_id@ implies #[trigger] kept_for(nh, m) == kept_for(h, m) by {
                        lemma_kept_other(h, nh, m);
                    }
                }
            },
        }
        std::mem::swap(&mut entries, &mut self.observations);
        Ok(delta)
    }

    /// How many observations are kept for the market.
    pub fn len_for(&self, market_id: &str) -> (n: usize)
        requires
            self.wf(),
        ensures
            n == self.spec_kept(market_id@).len(),
    {
        match self.index_of(market_id) {
            Some(i) => {
                proof {
                    lemma_kept_at(self.observations@, i as int);
                }
                self.observations[i].1.len()
            },
            None => 0,
        }
    }

    /// The latest probability kept for the market.
    pub fn latest_probability(&self, market_id: &str) -> (p: Option<Dec>)
        requires
            self.wf(),
        ensures
            self.spec_kept(market_id@).len() == 0 ==> p is None,
            self.spec_kept(market_id@).len() > 0 ==> p == Some(self.spec_kept(market_id@).last().probability.spec_value()),
    {
        match self.index_of(market_id) {
            Some(i) => {
                proof {
                    lemma_kept_at(self.observations@, i as int);
                }
                let history = &self.observations[i].1;
                if history.len() > 0 {
                    Some(history[history.len() - 1].probability.value())
                } else {
                    None
                }
            },
            None => None,
        }
    }
}

/// The terms configured for the instrument.
pub open spec fn terms_of(v: Seq<(Instrument, Vec<String>)>, sym: Seq<char>) -> Option<Seq<String>> {
    if exists|i: int| 0 <= i < v.len() && (#[trigger] v[i]).0@ == sym {
        Some(v[choose|i: int| 0 <= i < v.len() && (#[trigger] v[i]).0@ == sym].1@)
    } else {
        None
    }
}

/// Instruments ascending by symbol, each once.
pub open spec fn terms_keyed(v: Seq<(Instrument, Vec<String>)>) -> bool {
    forall|i: int, j: int| 0 <= i < j < v.len() ==> lex_lt(#[trigger] v[i].0@, #[trigger] v[j].0@)
}

/// The non-blank terms, in order.
pub open spec fn nonblank_terms(t: Seq<String>) -> Seq<String> {
    t.filter(|x: String| !is_blank(x@))
}

proof fn lemma_terms_at(v: Seq<(Instrument, Vec<String>)>, i: int)
    requires
        terms_keyed(v),
        0 <= i < v.len(),
    ensures
        terms_of(v, v[i].0@) == Some(v[i].1@),
{
    let j = choose|j: int| 0 <= j < v.len() && (#[trigger] v[j]).0@ == v[i].0@;
    if j < i {
        assert(lex_lt(v[j].0@, v[i].0@));
        crate::domain::instrument::lemma_lex_irreflexive(v[i].0@);
    } else if j > i {
        assert(lex_lt(v[i].0@, v[j].0@));
        crate::domain::instrument::lemma_lex_irreflexive(v[i].0@);
    }
}

/// Keeps the terms of the instrument, replacing any it had.
fn upsert_terms(v: &mut Vec<(Instrument, Vec<String>)>, instrument: Instrument, terms: Vec<String>)
    requires
        terms_keyed(old(v)@),
    ensures
        terms_keyed(final(v)@),
        terms_of(final(v)@, instrument@) == Some(terms@),
        forall|s: Seq<char>| s != instrument@ ==> #[trigger] terms_of(final(v)@, s) == terms_of(old(v)@, s),
{
    let ghost old_v = v@;
    let ghost sym = instrument@;
    let mut i: usize = 0;
    while i < v.len() && v[i].0.precedes(&instrument)
        invariant
            i <= v@.len(),
            v@ == old_v,
            terms_keyed(old_v),
            forall|k: int| 0 <= k < i ==> lex_lt(#[trigger] old_v[k].0@, sym),
            sym == instrument@,
        decreases v.len() - i,
    {
        i = i + 1;
    }
    proof {
        assert forall|k: int| i <= k < old_v.len() implies !lex_lt(#[trigger] old_v[k].0@, sym) by {
            if k > i as int {
                assert(lex_lt(old_v[i as int].0@, old_v[k].0@));
                if lex_lt(old_v[k].0@, sym) {
                    lemma_lex_transitive(old_v[i as int].0@, old_v[k].0@, sym);
                }
            }
        }
    }
    let ghost tv = terms@;
    if i < v.len() && v[i].0.same_as(&instrument) {
        let _ = v.remove(i);
        v.insert(i, (instrument, terms));
        proof {
            let nv = v@;
            assert(nv =~= old_v.update(i as int, nv[i as int]));
            assert(terms_keyed(nv)) by {
                assert forall|a: int, b: int| 0 <= a < b < nv.len() implies lex_lt(#[trigger] nv[a].0@, #[trigger] nv[b].0@) by {
                    assert(nv[a].0@ == old_v[a].0@);
                    assert(nv[b].0@ == old_v[b].0@);
                }
            }
            lemma_terms_at(nv, i as int);
            assert forall|s: Seq<char>| s != sym implies #[trigger] terms_of(nv, s) == terms_of(old_v, s) by {
                if exists|k: int| 0 <= k < old_v.len() && (#[trigger] old_v[k]).0@ == s {
                    let k = choose|k: int| 0 <= k < old_v.len() && (#[trigger] old_v[k]).0@ == s;
                    lemma_terms_at(old_v, k);
                    assert(nv[k] == old_v[k]);
                    lemma_terms_at(nv, k);
                } else if exists|k: int| 0 <= k < nv.len() && (#[trigger] nv[k]).0@ == s {
                    let k = choose|k: int| 0 <= k < nv.len() && (#[trigger] nv[k]).0@ == s;
                    assert(old_v[k].0@ == s);
                }
            }
        }
        return;
    }
    proof {
        assert forall|k: int| i <= k < old_v.len() implies lex_lt(sym, #[trigger] old_v[k].0@) by {
            lemma_lex_total(sym, old_v[k].0@);
            if k == i as int {
            } else {
                assert(lex_lt(old_v[i as int].0@, old_v[k].0@));
                lemma_lex_total(sym, old_v[i as int].0@);
                if !(sym =~= old_v[i as int].0@) && !lex_lt(old_v[i as int].0@, sym) {
                    lemma_lex_transitive(sym, old_v[i as int].0@, old_v[k].0@);
                }
            }
        }
    }
    let ghost entry = (instrument, terms);
    v.insert(i, (instrument, terms));
    proof {
        let nv = v@;
        assert(nv =~= old_v.insert(i as int, entry));
        assert(terms_keyed(nv)) by {
            assert forall|a: int, b: int| 0 <= a < b < nv.len() implies lex_lt(#[trigger] nv[a].0@, #[trigger] nv[b].0@) by {
                if a < i as int && b < i as int {
                } else if a < i as int && b == i as int {
                } else if a < i as int {
                    assert(nv[b] == old_v[b - 1]);
                } else if a == i as int {
                    assert(nv[b] == old_v[b - 1]);
                } else {
                    assert(nv[a] == old_v[a - 1] && nv[b] == old_v[b - 1]);
                }
            }
        }
        lemma_terms_at(nv, i as int);
        assert forall|s: Seq<char>| s != sym implies #[trigger] terms_of(nv, s) == terms_of(old_v, s) by {
            if exists|k: int| 0 <= k < old_v.len() && (#[trigger] old_v[k]).0@ == s {
                let k = choose|k: int| 0 <= k < old_v.len() && (#[trigger] old_v[k]).0@ == s;
                lemma_terms_at(old_v, k);
                if k < i as int {
                    assert(nv[k] == old_v[k]);
                    lemma_terms_at(nv, k);
                } else {
                    assert(nv[k + 1] == old_v[k]);
                    lemma_terms_at(nv, k + 1);
                }
            } else if exists|k: int| 0 <= k < nv.len() && (#[trigger] nv[k]).0@ == s {
                let k = choose|k: int| 0 <= k < nv.len() && (#[trigger] nv[k]).0@ == s;
                if k < i as int {
                    assert(old_v[k].0@ == s);
                } else if k > i as int {
                    assert(old_v[k - 1].0@ == s);
                }
            }
        }
    }
}

/// The non-blank terms of a list, in order.
fn keep_nonblank(terms: Vec<String>) -> (r: Vec<String>)
    ensures
        r@ == nonblank_terms(terms@),
{
    let ghost input = terms@;
    assert(input.len() <= usize::MAX) by {
        assert(input.len() == terms.len());
    }
    let mut kept: Vec<String> = Vec::new();
    let mut rest = terms;
    let mut n: usize = 0;
    while rest.len() > 0
        invariant
            n <= input.len(),
            input.len() <= usize::MAX,
            rest@ == input.subrange(n as int, input.len() as int),
            kept@ == nonblank_terms(input.subrange(0, n as int)),
        decreases rest.len(),
    {
        let t = rest.remove(0);
        proof {
            assert(input.subrange(0, n + 1) =~= input.subrange(0, n as int).push(input[n as int]));
            assert(t == input[n as int]);
            assert(nonblank_terms(input.subrange(0, n as int).push(t)) == if !is_blank(t@) {
                nonblank_terms(input.subrange(0, n as int)).push(t)
            } else {
                nonblank_terms(input.subrange(0, n as int))
            }) by {
                reveal(Seq::filter);
                assert(input.subrange(0, n as int).push(t).drop_last() =~= input.subrange(0, n as int));
            }
        }
        if !str_is_blank(t.as_str()) {
            kept.push(t);
        }
        n = n + 1;
    }
    proof {
        assert(input.subrange(0, n as int) =~= input);
    }
    kept
}

/// Where the Polymarket servers are, how long to wait, how much history to
/// keep, how many markets to read per search term, and the terms searched
/// for each instrument (ascending by instrument). The request timeout is
/// in milliseconds.
#[derive(Debug)]
pub struct PolymarketConfig {
    enabled: bool,
    executable: String,
    gamma_api_url: String,
    clob_api_url: String,
    request_timeout: u64,
    history_capacity: usize,
    max_markets_per_term: usize,
    search_terms: Vec<(Instrument, Vec<String>)>,
}

/// The first rule the configuration breaks, by its message.
pub open spec fn polymarket_config_fault(
    executable: Seq<char>,
    gamma: Seq<char>,
    clob: Seq<char>,
    timeout: u64,
    capacity: usize,
    max_markets: usize,
    terms: Seq<(Instrument, Vec<String>)>,
) -> Option<Seq<char>> {
    if executable.len() == 0 {
        Some("executable cannot be empty"@)
    } else if is_blank(gamma) || is_blank(clob) {
        Some("Gamma and CLOB API URLs cannot be empty"@)
    } else if timeout == 0 {
        Some("request timeout must be positive"@)
    } else if capacity == 0 || max_markets == 0 {
        Some("history capacity and market limit must be positive"@)
    } else if terms.len() == 0 || exists|i: int| 0 <= i < terms.len() && {
        let (instrument, list) = #[trigger] terms[i];
        !valid_symbol(instrument@) || list@.len() == 0 || exists|k: int| 0 <= k < list@.len() && is_blank(#[trigger] list@[k]@)
    } {
        Some("at least one valid instrument search term is required"@)
    } else {
        None
    }
}

fn term_pair(symbol: &str, a: &str, b: &str) -> (r: (Instrument, Vec<String>))
    requires
        valid_symbol(symbol@),
    ensures
        r.0@ == symbol@,
        texts(r.1@) == seq![a@, b@],
{
    let instrument = match Instrument::parse(symbol) {
        Ok(i) => i,
        Err(_) => {
            proof {
                assert(false);
            }
            Instrument::parse(symbol).unwrap()
        },
    };
    let mut terms: Vec<String> = Vec::new();
    terms.push(String::from_str(a));
    terms.push(String::from_str(b));
    proof {
        assert(texts(terms@) =~= seq![a@, b@]);
    }
    (instrument, terms)
}

/// The default terms: bitcoin and btc for BTC-USDT, ethereum and eth for
/// ETH-USDT, hyperliquid and hype for HYPE-USDT, solana and sol for
/// SOL-USDT.
/// The default search terms, by instrument: bitcoin and btc, ethereum and
/// eth, hyperliquid and hype, solana and sol.
pub open spec fn default_terms(v: Seq<(Instrument, Vec<String>)>) -> bool {
    &&& v.len() == 4
    &&& v[0].0@ == "BTC-USDT"@ && texts(v[0].1@) == seq!["bitcoin"@, "btc"@]
    &&& v[1].0@ == "ETH-USDT"@ && texts(v[1].1@) == seq!["ethereum"@, "eth"@]
    &&& v[2].0@ == "HYPE-USDT"@ && texts(v[2].1@) == seq!["hyperliquid"@, "hype"@]
    &&& v[3].0@ == "SOL-USDT"@ && texts(v[3].1@) == seq!["solana"@, "sol"@]
}

pub fn default_search_terms() -> (v: Vec<(Instrument, Vec<String>)>)
    ensures
        default_terms(v@),
        v@.len() == 4,
        terms_keyed(v@),
        v@[0].0@ == "BTC-USDT"@ && texts(v@[0].1@) == seq!["bitcoin"@, "btc"@],
        v@[1].0@ == "ETH-USDT"@ && texts(v@[1].1@) == seq!["ethereum"@, "eth"@],
        v@[2].0@ == "HYPE-USDT"@ && texts(v@[2].1@) == seq!["hyperliquid"@, "hype"@],
        v@[3].0@ == "SOL-USDT"@ && texts(v@[3].1@) == seq!["solana"@, "sol"@],
{
    proof {
        reveal_strlit("BTC-USDT");
        reveal_strlit("ETH-USDT");
        reveal_strlit("HYPE-USDT");
        reveal_strlit("SOL-USDT");
        assert(crate::domain::instrument::hyphen_at("BTC-USDT"@, 3));
        assert(crate::domain::instrument::hyphen_at("ETH-USDT"@, 3));
        assert(crate::domain::instrument::hyphen_at("HYPE-USDT"@, 4));
        assert(crate::domain::instrument::hyphen_at("SOL-USDT"@, 3));
    }
    let mut v: Vec<(Instrument, Vec<String>)> = Vec::new();
    v.push(term_pair("BTC-USDT", "bitcoin", "btc"));
    v.push(term_pair("ETH-USDT", "ethereum", "eth"));
    v.push(term_pair("HYPE-USDT", "hyperliquid", "hype"));
    v.push(term_pair("SOL-USDT", "solana", "sol"));
    proof {
        assert(lex_lt("BTC-USDT"@, "ETH-USDT"@));
        assert(lex_lt("ETH-USDT"@, "HYPE-USDT"@));
        assert(lex_lt("HYPE-USDT"@, "SOL-USDT"@));
        lemma_lex_transitive("BTC-USDT"@, "ETH-USDT"@, "HYPE-USDT"@);
        lemma_lex_transitive("ETH-USDT"@, "HYPE-USDT"@, "SOL-USDT"@);
        lemma_lex_transitive("BTC-USDT"@, "HYPE-USDT"@, "SOL-USDT"@);
    }
    v
}

/// What a configuration holds.
pub struct PolymarketConfigView {
    pub enabled: bool,
    pub executable: Seq<char>,
    pub gamma_api_url: Seq<char>,
    pub clob_api_url: Seq<char>,
    pub request_timeout: u64,
    pub history_capacity: usize,
    pub max_markets_per_term: usize,
    pub search_terms: Seq<(Instrument, Vec<String>)>,
}

impl View for PolymarketConfig {
    type V = PolymarketConfigView;

    closed spec fn view(&self) -> PolymarketConfigView {
        PolymarketConfigView {
            enabled: self.enabled,
            executable: self.executable@,
            gamma_api_url: self.gamma_api_url@,
            clob_api_url: self.clob_api_url@,
            request_timeout: self.request_timeout,
            history_capacity: self.history_capacity,
            max_markets_per_term: self.max_markets_per_term,
            search_terms: self.search_terms@,
        }
    }
}

impl PolymarketConfig {
    pub closed spec fn keyed(&self) -> bool {
        terms_keyed(self.search_terms@)
    }

    pub fn disabled() -> (c: PolymarketConfig)
        ensures
            !c@.enabled,
            c.keyed(),
            c@.executable == "polymarket-mcp"@,
            c@.gamma_api_url == "https://gamma-api.polymarket.com"@,
            c@.clob_api_url == "https://clob.polymarket.com"@,
            c@.request_timeout == 15_000,
            c@.history_capacity == 32,
            c@.max_markets_per_term == 5,
            default_terms(c@.search_terms),
    {
        Self::default().with_enabled(false)
    }

    pub fn enabled(&self) -> (b: bool)
        ensures
            b == self@.enabled,
    {
        self.enabled
    }

    pub fn with_enabled(self, enabled: bool) -> (c: PolymarketConfig)
        ensures
            c@ == (PolymarketConfigView { enabled: enabled, ..self@ }),
    {
        PolymarketConfig { enabled, ..self }
    }

    pub fn with_executable(self, executable: String) -> (c: PolymarketConfig)
        ensures
            c@ == (PolymarketConfigView { executable: executable@, ..self@ }),
    {
        PolymarketConfig { executable, ..self }
    }

    pub fn with_gamma_api_url(self, gamma_api_url: String) -> (c: PolymarketConfig)
        ensures
            c@ == (PolymarketConfigView { gamma_api_url: gamma_api_url@, ..self@ }),
    {
        PolymarketConfig { gamma_api_url, ..self }
    }

    pub fn with_clob_api_url(self, clob_api_url: String) -> (c: PolymarketConfig)
        ensures
            c@ == (PolymarketConfigView { clob_api_url: clob_api_url@, ..self@ }),
    {
        PolymarketConfig { clob_api_url, ..self }
    }

    pub fn with_request_timeout(self, request_timeout: u64) -> (c: PolymarketConfig)
        ensures
            c@ == (PolymarketConfigView { request_timeout: request_timeout, ..self@ }),
    {
        PolymarketConfig { request_timeout, ..self }
    }

    pub fn with_history_capacity(self, history_capacity: usize) -> (c: PolymarketConfig)
        ensures
            c@ == (PolymarketConfigView { history_capacity: history_capacity, ..self@ }),
    {
        PolymarketConfig { history_capacity, ..self }
    }

    pub fn with_max_markets_per_term(self, max_markets_per_term: usize) -> (c: PolymarketConfig)
        ensures
            c@ == (PolymarketConfigView { max_markets_per_term: max_markets_per_term, ..self@ }),
    {
        PolymarketConfig { max_markets_per_term, ..self }
    }

    /// Searches the instrument by the non-blank terms given, replacing any
    /// it had.
    pub fn with_search_terms(self, instrument: Instrument, terms: Vec<String>) -> (c: PolymarketConfig)
        requires
            self.keyed(),
        ensures
            c.keyed(),
            terms_of(c@.search_terms, instrument@) == Some(nonblank_terms(terms@)),
            forall|s: Seq<char>| s != instrument@ ==> #[trigger] terms_of(c@.search_terms, s) == terms_of(self@.search_terms, s),
            c@.enabled == self@.enabled,
            c@.executable == self@.executable,
            c@.gamma_api_url == self@.gamma_api_url,
            c@.clob_api_url == self@.clob_api_url,
            c@.request_timeout == self@.request_timeout,
            c@.history_capacity == self@.history_capacity,
            c@.max_markets_per_term == self@.max_markets_per_term,
    {
        let kept = keep_nonblank(terms);
        let mut search_terms = self.search_terms;
        upsert_terms(&mut search_terms, instrument, kept);
        PolymarketConfig { search_terms, ..self }
    }

    pub fn executable(&self) -> (s: &str)
        ensures
            s@ == self@.executable,
    {
        self.executable.as_str()
    }

    pub fn gamma_api_url(&self) -> (s: &str)
        ensures
            s@ == self@.gamma_api_url,
    {
        self.gamma_api_url.as_str()
    }

    pub fn clob_api_url(&self) -> (s: &str)
        ensures
            s@ == self@.clob_api_url,
    {
        self.clob_api_url.as_str()
    }

    pub fn request_timeout(&self) -> (t: u64)
        ensures
            t == self@.request_timeout,
    {
        self.request_timeout
    }

    pub fn history_capacity(&self) -> (n: usize)
        ensures
            n == self@.history_capacity,
    {
        self.history_capacity
    }

    pub fn max_markets_per_term(&self) -> (n: usize)
        ensures
            n == self@.max_markets_per_term,
    {
        self.max_markets_per_term
    }

    pub fn search_terms(&self) -> (v: &Vec<(Instrument, Vec<String>)>)
        ensures
            v@ == self@.search_terms,
    {
        &self.search_terms
    }

    /// Checks the configuration.
    pub fn validate(&self) -> (r: Result<(), PolymarketMcpError>)
        ensures
            r is Ok <==> polymarket_config_fault(
                self@.executable,
                self@.gamma_api_url,
                self@.clob_api_url,
                self@.request_timeout,
                self@.history_capacity,
                self@.max_markets_per_term,
                self@.search_terms,
            ) is None,
            r matches Err(e) ==> e matches PolymarketMcpError::InvalidConfig(m) && Some(m@) == polymarket_config_fault(
                self@.executable,
                self@.gamma_api_url,
                self@.clob_api_url,
                self@.request_timeout,
                self@.history_capacity,
                self@.max_markets_per_term,
                self@.search_terms,
            ),
    {
        if self.executable.as_str().unicode_len() == 0 {
            return Err(PolymarketMcpError::InvalidConfig(String::from_str("executable cannot be empty")));
        }
        if str_is_blank(self.gamma_api_url.as_str()) || str_is_blank(self.clob_api_url.as_str()) {
            return Err(PolymarketMcpError::InvalidConfig(String::from_str("Gamma and CLOB API URLs cannot be empty")));
        }
        if self.request_timeout == 0 {
            return Err(PolymarketMcpError::InvalidConfig(String::from_str("request timeout must be positive")));
        }
        if self.history_capacity == 0 || self.max_markets_per_term == 0 {
            return Err(PolymarketMcpError::InvalidConfig(String::from_str("history capacity and market limit must be positive")));
        }
        let mut bad = self.search_terms.len() == 0;
        let mut i: usize = 0;
        while i < self.search_terms.len()
            invariant
                i <= self.search_terms@.len(),
                bad == (self.search_terms@.len() == 0 || exists|j: int| 0 <= j < i && {
                    let (instrument, list) = #[trigger] self.search_terms@[j];
                    !valid_symbol(instrument@) || list@.len() == 0 || exists|k: int| 0 <= k < list@.len() && is_blank(#[trigger] list@[k]@)
                }),
            decreases self.search_terms.len() - i,
        {
            let invalid = match self.search_terms[i].0.validate() {
                Ok(()) => false,
                Err(_) => true,
            };
            let list = &self.search_terms[i].1;
            let mut blank = false;
            let mut k: usize = 0;
            while k < list.len()
                invariant
                    k <= list@.len(),
                    blank == exists|m: int| 0 <= m < k && is_blank(#[trigger] list@[m]@),
                decreases list.len() - k,
            {
                if str_is_blank(list[k].as_str()) {
                    blank = true;
                }
                k = k + 1;
            }
            if invalid || list.len() == 0 || blank {
                bad = true;
            }
            i = i + 1;
        }
        if bad {
            return Err(PolymarketMcpError::InvalidConfig(String::from_str("at least one valid instrument search term is required")));
        }
        Ok(())
    }
}

impl Default for PolymarketConfig {
    /// Enabled; the `polymarket-mcp` executable; the public Gamma and CLOB
    /// endpoints; fifteen seconds per request; thirty-two observations of
    /// history; five markets per term; the default search terms.
    fn default() -> (c: PolymarketConfig)
        ensures
            c@.enabled,
            c.keyed(),
            c@.executable == "polymarket-mcp"@,
            c@.gamma_api_url == "https://gamma-api.polymarket.com"@,
            c@.clob_api_url == "https://clob.polymarket.com"@,
            c@.request_timeout == 15_000,
            c@.history_capacity == 32,
            c@.max_markets_per_term == 5,
            c@.search_terms.len() == 4,
            default_terms(c@.search_terms),
    {
        PolymarketConfig {
            enabled: true,
            executable: String::from_str("polymarket-mcp"),
            gamma_api_url: String::from_str("https://gamma-api.polymarket.com"),
            clob_api_url: String::from_str("https://clob.polymarket.com"),
            request_timeout: 15_000,
            history_capacity: 32,
            max_markets_per_term: 5,
            search_terms: default_search_terms(),
        }
    }
}

/// A switch value: `1`, `true`, `yes` or `on`, or `0`, `false`, `no` or
/// `off`, in any case, around blanks.
pub open spec fn switch_value(t: Seq<char>) -> Option<bool> {
    if t == "1"@ || t == "true"@ || t == "yes"@ || t == "on"@ {
        Some(true)
    } else if t == "0"@ || t == "false"@ || t == "no"@ || t == "off"@ {
        Some(false)
    } else {
        None
    }
}

/// Reads a switch setting.
pub fn parse_bool(value: &str) -> (r: Result<bool, PolymarketMcpError>)
    ensures
        match switch_value(crate::text::lowered(crate::text::trimmed(value@))) {
            Some(b) => r == Ok::<bool, PolymarketMcpError>(b),
            None => r matches Err(PolymarketMcpError::InvalidConfig(m)) && m@ == "invalid boolean value: "@ + value@,
        },
{
    let trimmed = crate::text::trim_text(value);
    let t = crate::text::ascii_lowercase(trimmed.as_str());
    let tv = t.as_str();
    if str_eq(tv, "1") || str_eq(tv, "true") || str_eq(tv, "yes") || str_eq(tv, "on") {
        Ok(true)
    } else if str_eq(tv, "0") || str_eq(tv, "false") || str_eq(tv, "no") || str_eq(tv, "off") {
        Ok(false)
    } else {
        Err(PolymarketMcpError::InvalidConfig(concat("invalid boolean value: ", value)))
    }
}

} // verus!
