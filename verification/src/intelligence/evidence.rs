//! Typed intelligence evidence and its validation.

use vstd::prelude::*;

use crate::dec::{one_units, units, Dec};
use crate::domain::evidence::SourceEventId;
use crate::domain::instrument::{valid_symbol, Instrument};
use crate::ids::{EvidenceId, LineageId};
use crate::text::{is_blank, str_is_blank};
use crate::timestamp::{ts_lt, Timestamp};
use super::events::EventFingerprint;
use super::IntelligenceError;

verus! {

#[derive(Clone, Copy, Debug, PartialEq, Eq, Structural, Hash, PartialOrd, Ord)]
pub enum IntelligenceSource {
    AtkNews,
    Polymarket,
    Reddit,
    MarxFinance,
}

/// The position of a source in source order.
pub open spec fn source_rank(s: IntelligenceSource) -> int {
    match s {
        IntelligenceSource::AtkNews => 0,
        IntelligenceSource::Polymarket => 1,
        IntelligenceSource::Reddit => 2,
        IntelligenceSource::MarxFinance => 3,
    }
}

impl IntelligenceSource {
    pub fn rank(self) -> (r: u8)
        ensures
            r as int == source_rank(self),
    {
        match self {
            IntelligenceSource::AtkNews => 0,
            IntelligenceSource::Polymarket => 1,
            IntelligenceSource::Reddit => 2,
            IntelligenceSource::MarxFinance => 3,
        }
    }
}

#[derive(Clone, Copy, Debug, PartialEq, Eq, Structural)]
pub enum IntelligenceDirection {
    Bullish,
    Bearish,
    Neutral,
    Mixed,
    Unclear,
}

/// Within `[0, 1]`.
pub open spec fn in_unit(v: Dec) -> bool {
    0 <= units(v@) <= one_units()
}

/// The check that a score lies in the unit interval.
pub open spec fn score_check(field: &'static str, v: Dec) -> Option<IntelligenceError> {
    if in_unit(v) {
        None
    } else {
        Some(IntelligenceError::ScoreOutOfRange { field, value: v })
    }
}

fn check_unit(field: &'static str, v: Dec) -> (r: Result<(), IntelligenceError>)
    ensures
        r == as_result(score_check(field, v)),
{
    if v.is_negative() || Dec::one().lt(&v) {
        return Err(IntelligenceError::ScoreOutOfRange { field, value: v });
    }
    Ok(())
}

#[derive(Clone, Copy, Debug, PartialEq, Eq)]
pub struct Score(Dec);

impl Score {
    pub closed spec fn spec_value(self) -> Dec {
        self.0
    }

    pub fn new(value: Dec) -> (r: Result<Score, IntelligenceError>)
        ensures
            match score_check("score", value) {
                None => r matches Ok(s) && s.spec_value() == value,
                Some(e) => r == Err::<Score, IntelligenceError>(e),
            },
    {
        check_unit("score", value)?;
        Ok(Score(value))
    }

    pub fn value(self) -> (d: Dec)
        ensures
            d == self.spec_value(),
    {
        self.0
    }

    pub fn validate(self, field: &'static str) -> (r: Result<(), IntelligenceError>)
        ensures
            r == as_result(score_check(field, self.spec_value())),
    {
        check_unit(field, self.0)
    }
}

#[derive(Clone, Copy, Debug, PartialEq, Eq)]
pub struct Probability(Dec);

impl Probability {
    pub closed spec fn spec_value(self) -> Dec {
        self.0
    }

    pub fn new(value: Dec) -> (r: Result<Probability, IntelligenceError>)
        ensures
            match score_check("probability", value) {
                None => r matches Ok(p) && p.spec_value() == value,
                Some(e) => r == Err::<Probability, IntelligenceError>(e),
            },
    {
        check_unit("probability", value)?;
        Ok(Probability(value))
    }

    pub fn value(self) -> (d: Dec)
        ensures
            d == self.spec_value(),
    {
        self.0
    }
}

#[derive(Clone, Copy, Debug, PartialEq, Eq)]
pub struct SignedValue(Dec);

impl SignedValue {
    pub closed spec fn spec_value(self) -> Dec {
        self.0
    }

    /// A value within `[-1, 1]`.
    pub fn new(value: Dec) -> (r: Result<SignedValue, IntelligenceError>)
        ensures
            -one_units() <= units(value@) <= one_units() ==> (r matches Ok(s) && s.spec_value() == value),
            !(-one_units() <= units(value@) <= one_units()) ==> r == Err::<SignedValue, IntelligenceError>(
                IntelligenceError::ScoreOutOfRange { field: "signed value", value },
            ),
    {
        let one = Dec::one();
        let minus_one = one.neg();
        if value.lt(&minus_one) || one.lt(&value) {
            return Err(IntelligenceError::ScoreOutOfRange { field: "signed value", value });
        }
        Ok(SignedValue(value))
    }

    pub fn value(self) -> (d: Dec)
        ensures
            d == self.spec_value(),
    {
        self.0
    }
}

#[derive(Debug, PartialEq, Eq)]
pub struct SourceReference(String);

impl SourceReference {
    pub closed spec fn spec_text(&self) -> Seq<char> {
        self.0@
    }

    pub fn new(value: String) -> (r: Result<SourceReference, IntelligenceError>)
        ensures
            is_blank(value@) ==> r == Err::<SourceReference, IntelligenceError>(
                IntelligenceError::EmptyField { field: "source_reference" },
            ),
            !is_blank(value@) ==> (r matches Ok(s) && s.spec_text() == value@),
    {
        if str_is_blank(value.as_str()) {
            return Err(IntelligenceError::EmptyField { field: "source_reference" });
        }
        Ok(SourceReference(value))
    }

    pub fn as_str(&self) -> (s: &str)
        ensures
            s@ == self.spec_text(),
    {
        self.0.as_str()
    }
}

impl Clone for SourceReference {
    fn clone(&self) -> (r: SourceReference)
        ensures
            r == *self,
    {
        SourceReference(self.0.clone())
    }
}

#[derive(Debug, PartialEq, Eq)]
pub struct AssetImpact {
    pub instrument: Instrument,
    pub relevance: Score,
}

impl Clone for AssetImpact {
    fn clone(&self) -> (r: AssetImpact)
        ensures
            r == *self,
    {
        AssetImpact { instrument: self.instrument.clone(), relevance: self.relevance }
    }
}

#[derive(Debug, PartialEq, Eq)]
pub struct NewsEvidence {
    pub headline: String,
    pub summary: Option<String>,
    pub category: Option<String>,
    pub importance: Option<Score>,
    pub published_at: Option<Timestamp>,
}

#[derive(Debug, PartialEq, Eq)]
pub struct PredictionMarketEvidence {
    pub market_id: String,
    pub token_id: String,
    pub question: String,
    pub implied_probability: Probability,
    pub probability_delta: Option<SignedValue>,
    pub liquidity: Option<Dec>,
    pub volume: Option<Dec>,
    pub spread: Option<Dec>,
}

#[derive(Debug, PartialEq, Eq)]
pub struct RedditEvidence {
    pub post_id: String,
    pub communities: Vec<String>,
    pub event_type: Option<String>,
    pub supporting_signals: Vec<String>,
    pub counter_signals: Vec<String>,
    pub context_comments: Option<u32>,
    pub event_relevance: Score,
    pub mention_velocity: Option<Dec>,
    pub unique_author_velocity: Option<Dec>,
    pub engagement_velocity: Option<Dec>,
    pub sentiment: Option<SignedValue>,
    pub sentiment_delta: Option<SignedValue>,
    pub sentiment_dispersion: Option<Score>,
    pub cross_community_confirmation: Option<Score>,
}

#[derive(Debug, PartialEq, Eq)]
pub struct MarxEvidence {
    pub agent_id: String,
    pub thesis: String,
    pub stance: IntelligenceDirection,
    pub supporting_arguments: Vec<String>,
    pub counter_arguments: Vec<String>,
    pub confidence: Option<Score>,
}

#[derive(Debug, PartialEq, Eq)]
pub enum EvidencePayload {
    News(NewsEvidence),
    PredictionMarket(PredictionMarketEvidence),
    Reddit(RedditEvidence),
    Marx(MarxEvidence),
}

pub open spec fn payload_source(p: EvidencePayload) -> IntelligenceSource {
    match p {
        EvidencePayload::News(_) => IntelligenceSource::AtkNews,
        EvidencePayload::PredictionMarket(_) => IntelligenceSource::Polymarket,
        EvidencePayload::Reddit(_) => IntelligenceSource::Reddit,
        EvidencePayload::Marx(_) => IntelligenceSource::MarxFinance,
    }
}

pub open spec fn nonempty_check(s: Seq<char>, field: &'static str) -> Option<IntelligenceError> {
    if is_blank(s) {
        Some(IntelligenceError::EmptyField { field })
    } else {
        None
    }
}

pub open spec fn nonneg_check(v: Option<Dec>, field: &'static str) -> Option<IntelligenceError> {
    if v matches Some(x) && units(x@) < 0 {
        Some(IntelligenceError::NegativeValue { field })
    } else {
        None
    }
}

pub open spec fn opt_score_check(v: Option<Score>, field: &'static str) -> Option<IntelligenceError> {
    match v {
        Some(s) => score_check(field, s.spec_value()),
        None => None,
    }
}

/// The first of two checks that fails.
pub open spec fn first(a: Option<IntelligenceError>, b: Option<IntelligenceError>) -> Option<IntelligenceError> {
    if a is Some {
        a
    } else {
        b
    }
}

/// The first community name, from `k` on, that is blank.
pub open spec fn communities_check(c: Seq<String>, k: int) -> Option<IntelligenceError>
    decreases c.len() - k,
{
    if k < 0 || k >= c.len() {
        None
    } else if is_blank(c[k]@) {
        Some(IntelligenceError::EmptyField { field: "community" })
    } else {
        communities_check(c, k + 1)
    }
}

pub open spec fn news_fault(n: NewsEvidence) -> Option<IntelligenceError> {
    first(nonempty_check(n.headline@, "headline"), opt_score_check(n.importance, "news importance"))
}

pub open spec fn market_fault(m: PredictionMarketEvidence) -> Option<IntelligenceError> {
    first(
        nonempty_check(m.market_id@, "market_id"),
        first(
            nonempty_check(m.token_id@, "token_id"),
            first(
                nonempty_check(m.question@, "question"),
                first(
                    nonneg_check(m.liquidity, "liquidity"),
                    first(nonneg_check(m.volume, "volume"), nonneg_check(m.spread, "spread")),
                ),
            ),
        ),
    )
}

/// The checks of a Reddit payload after its communities.
pub open spec fn reddit_tail_fault(r: RedditEvidence) -> Option<IntelligenceError> {
    first(
        nonneg_check(r.mention_velocity, "mention velocity"),
        first(
            nonneg_check(r.unique_author_velocity, "unique author velocity"),
            first(
                nonneg_check(r.engagement_velocity, "engagement velocity"),
                first(
                    opt_score_check(r.sentiment_dispersion, "sentiment dispersion"),
                    opt_score_check(r.cross_community_confirmation, "cross-community confirmation"),
                ),
            ),
        ),
    )
}

pub open spec fn reddit_fault(r: RedditEvidence) -> Option<IntelligenceError> {
    first(
        nonempty_check(r.post_id@, "post_id"),
        first(
            score_check("event relevance", r.event_relevance.spec_value()),
            first(communities_check(r.communities@, 0), reddit_tail_fault(r)),
        ),
    )
}

pub open spec fn marx_fault(m: MarxEvidence) -> Option<IntelligenceError> {
    first(
        nonempty_check(m.agent_id@, "agent_id"),
        first(nonempty_check(m.thesis@, "thesis"), opt_score_check(m.confidence, "Marx confidence")),
    )
}

/// The first refusal of a payload, in check order.
pub open spec fn payload_fault(p: EvidencePayload) -> Option<IntelligenceError> {
    match p {
        EvidencePayload::News(n) => news_fault(n),
        EvidencePayload::PredictionMarket(m) => market_fault(m),
        EvidencePayload::Reddit(r) => reddit_fault(r),
        EvidencePayload::Marx(m) => marx_fault(m),
    }
}

fn check_nonempty(s: &str, field: &'static str) -> (r: Result<(), IntelligenceError>)
    ensures
        r == as_result(nonempty_check(s@, field)),
{
    if str_is_blank(s) {
        return Err(IntelligenceError::EmptyField { field });
    }
    Ok(())
}

fn check_nonneg(v: Option<Dec>, field: &'static str) -> (r: Result<(), IntelligenceError>)
    ensures
        r == as_result(nonneg_check(v, field)),
{
    match v {
        Some(x) => {
            if x.is_negative() {
                return Err(IntelligenceError::NegativeValue { field });
            }
            Ok(())
        },
        None => Ok(()),
    }
}

fn check_opt_score(v: Option<Score>, field: &'static str) -> (r: Result<(), IntelligenceError>)
    ensures
        r == as_result(opt_score_check(v, field)),
{
    match v {
        Some(s) => s.validate(field),
        None => Ok(()),
    }
}

/// The outcome of a check as a result.
pub open spec fn as_result(f: Option<IntelligenceError>) -> Result<(), IntelligenceError> {
    match f {
        None => Ok(()),
        Some(e) => Err(e),
    }
}

impl EvidencePayload {
    pub fn source(&self) -> (s: IntelligenceSource)
        ensures
            s == payload_source(*self),
    {
        match self {
            EvidencePayload::News(_) => IntelligenceSource::AtkNews,
            EvidencePayload::PredictionMarket(_) => IntelligenceSource::Polymarket,
            EvidencePayload::Reddit(_) => IntelligenceSource::Reddit,
            EvidencePayload::Marx(_) => IntelligenceSource::MarxFinance,
        }
    }

    pub fn validate(&self) -> (r: Result<(), IntelligenceError>)
        ensures
            r == as_result(payload_fault(*self)),
    {
        match self {
            EvidencePayload::News(news) => validate_news(news),
            EvidencePayload::PredictionMarket(market) => validate_market(market),
            EvidencePayload::Reddit(reddit) => validate_reddit(reddit),
            EvidencePayload::Marx(marx) => validate_marx(marx),
        }
    }
}

fn validate_news(news: &NewsEvidence) -> (r: Result<(), IntelligenceError>)
    ensures
        r == as_result(news_fault(*news)),
{
    check_nonempty(news.headline.as_str(), "headline")?;
    check_opt_score(news.importance, "news importance")
}

fn validate_market(market: &PredictionMarketEvidence) -> (r: Result<(), IntelligenceError>)
    ensures
        r == as_result(market_fault(*market)),
{
    check_nonempty(market.market_id.as_str(), "market_id")?;
    check_nonempty(market.token_id.as_str(), "token_id")?;
    check_nonempty(market.question.as_str(), "question")?;
    check_nonneg(market.liquidity, "liquidity")?;
    check_nonneg(market.volume, "volume")?;
    check_nonneg(market.spread, "spread")
}

fn validate_reddit(reddit: &RedditEvidence) -> (r: Result<(), IntelligenceError>)
    ensures
        r == as_result(reddit_fault(*reddit)),
{
    check_nonempty(reddit.post_id.as_str(), "post_id")?;
    reddit.event_relevance.validate("event relevance")?;
    let mut i: usize = 0;
    while i < reddit.communities.len()
        invariant
            i <= reddit.communities@.len(),
            reddit_fault(*reddit) == first(communities_check(reddit.communities@, i as int), reddit_tail_fault(*reddit)),
        decreases reddit.communities.len() - i,
    {
        check_nonempty(reddit.communities[i].as_str(), "community")?;
        i = i + 1;
    }
    check_nonneg(reddit.mention_velocity, "mention velocity")?;
    check_nonneg(reddit.unique_author_velocity, "unique author velocity")?;
    check_nonneg(reddit.engagement_velocity, "engagement velocity")?;
    check_opt_score(reddit.sentiment_dispersion, "sentiment dispersion")?;
    check_opt_score(reddit.cross_community_confirmation, "cross-community confirmation")
}

fn validate_marx(marx: &MarxEvidence) -> (r: Result<(), IntelligenceError>)
    ensures
        r == as_result(marx_fault(*marx)),
{
    check_nonempty(marx.agent_id.as_str(), "agent_id")?;
    check_nonempty(marx.thesis.as_str(), "thesis")?;
    check_opt_score(marx.confidence, "Marx confidence")
}

#[derive(Debug, PartialEq, Eq)]
pub struct IntelligenceEvidence {
    pub evidence_id: EvidenceId,
    pub source: IntelligenceSource,
    pub source_event_id: SourceEventId,
    pub event_time: Option<Timestamp>,
    pub observed_at: Timestamp,
    pub affected_assets: Vec<AssetImpact>,
    pub direction: IntelligenceDirection,
    pub strength: Option<Score>,
    pub freshness: Option<Score>,
    pub reliability: Option<Score>,
    pub novelty: Option<Score>,
    pub summary: String,
    pub source_reference: Option<SourceReference>,
    pub event_fingerprint: EventFingerprint,
    pub lineage_id: Option<LineageId>,
    pub payload: EvidencePayload,
}

/// The first affected asset, from `k` on, that is refused.
pub open spec fn impacts_check(a: Seq<AssetImpact>, k: int) -> Option<IntelligenceError>
    decreases a.len() - k,
{
    if k < 0 || k >= a.len() {
        None
    } else if !valid_symbol(a[k].instrument@) {
        Some(IntelligenceError::EmptyField { field: "affected_assets.instrument" })
    } else if score_check("asset relevance", a[k].relevance.spec_value()) is Some {
        score_check("asset relevance", a[k].relevance.spec_value())
    } else {
        impacts_check(a, k + 1)
    }
}

/// The first refusal of an evidence record, in check order.
pub open spec fn evidence_fault(e: IntelligenceEvidence) -> Option<IntelligenceError> {
    if e.source != payload_source(e.payload) {
        Some(IntelligenceError::PayloadSourceMismatch)
    } else if is_blank(e.summary@) {
        Some(IntelligenceError::EmptyField { field: "summary" })
    } else if e.affected_assets@.len() == 0 {
        Some(IntelligenceError::EmptyField { field: "affected_assets" })
    } else if e.event_time matches Some(t) && ts_lt(e.observed_at, t) {
        Some(IntelligenceError::FutureEventTime)
    } else {
        first(
            opt_score_check(e.strength, "strength"),
            first(
                opt_score_check(e.freshness, "freshness"),
                first(
                    opt_score_check(e.reliability, "reliability"),
                    first(
                        opt_score_check(e.novelty, "novelty"),
                        first(impacts_check(e.affected_assets@, 0), payload_fault(e.payload)),
                    ),
                ),
            ),
        )
    }
}

impl IntelligenceEvidence {
    pub fn validate(&self) -> (r: Result<(), IntelligenceError>)
        ensures
            r == as_result(evidence_fault(*self)),
    {
        if self.source != self.payload.source() {
            return Err(IntelligenceError::PayloadSourceMismatch);
        }
        check_nonempty(self.summary.as_str(), "summary")?;
        if self.affected_assets.len() == 0 {
            return Err(IntelligenceError::EmptyField { field: "affected_assets" });
        }
        match self.event_time {
            Some(t) => {
                if self.observed_at.lt(&t) {
                    return Err(IntelligenceError::FutureEventTime);
                }
            },
            None => {},
        }
        check_opt_score(self.strength, "strength")?;
        check_opt_score(self.freshness, "freshness")?;
        check_opt_score(self.reliability, "reliability")?;
        check_opt_score(self.novelty, "novelty")?;
        assert(evidence_fault(*self) == first(impacts_check(self.affected_assets@, 0), payload_fault(self.payload)));
        let mut i: usize = 0;
        while i < self.affected_assets.len()
            invariant
                i <= self.affected_assets@.len(),
                evidence_fault(*self) == first(impacts_check(self.affected_assets@, i as int), payload_fault(self.payload)),
            decreases self.affected_assets.len() - i,
        {
            let impact = &self.affected_assets[i];
            if impact.instrument.validate().is_err() {
                return Err(IntelligenceError::EmptyField { field: "affected_assets.instrument" });
            }
            impact.relevance.validate("asset relevance")?;
            i = i + 1;
        }
        self.payload.validate()
    }
}

} // verus!

verus! {

/// Two payloads carry the same values, lists compared by their contents.
pub open spec fn payload_same(a: EvidencePayload, b: EvidencePayload) -> bool {
    match (a, b) {
        (EvidencePayload::News(x), EvidencePayload::News(y)) => x == y,
        (EvidencePayload::PredictionMarket(x), EvidencePayload::PredictionMarket(y)) => x == y,
        (EvidencePayload::Reddit(x), EvidencePayload::Reddit(y)) => {
            &&& x.post_id == y.post_id
            &&& x.communities@ == y.communities@
            &&& x.event_type == y.event_type
            &&& x.supporting_signals@ == y.supporting_signals@
            &&& x.counter_signals@ == y.counter_signals@
            &&& x.context_comments == y.context_comments
            &&& x.event_relevance == y.event_relevance
            &&& x.mention_velocity == y.mention_velocity
            &&& x.unique_author_velocity == y.unique_author_velocity
            &&& x.engagement_velocity == y.engagement_velocity
            &&& x.sentiment == y.sentiment
            &&& x.sentiment_delta == y.sentiment_delta
            &&& x.sentiment_dispersion == y.sentiment_dispersion
            &&& x.cross_community_confirmation == y.cross_community_confirmation
        },
        (EvidencePayload::Marx(x), EvidencePayload::Marx(y)) => {
            &&& x.agent_id == y.agent_id
            &&& x.thesis == y.thesis
            &&& x.stance == y.stance
            &&& x.supporting_arguments@ == y.supporting_arguments@
            &&& x.counter_arguments@ == y.counter_arguments@
            &&& x.confidence == y.confidence
        },
        _ => false,
    }
}

/// Two evidence records carry the same values, lists compared by contents.
pub open spec fn evidence_same(a: IntelligenceEvidence, b: IntelligenceEvidence) -> bool {
    &&& a.evidence_id == b.evidence_id
    &&& a.source == b.source
    &&& a.source_event_id == b.source_event_id
    &&& a.event_time == b.event_time
    &&& a.observed_at == b.observed_at
    &&& a.affected_assets@ == b.affected_assets@
    &&& a.direction == b.direction
    &&& a.strength == b.strength
    &&& a.freshness == b.freshness
    &&& a.reliability == b.reliability
    &&& a.novelty == b.novelty
    &&& a.summary == b.summary
    &&& a.source_reference == b.source_reference
    &&& a.event_fingerprint == b.event_fingerprint
    &&& a.lineage_id == b.lineage_id
    &&& payload_same(a.payload, b.payload)
}

pub proof fn lemma_same_fault(a: IntelligenceEvidence, b: IntelligenceEvidence)
    requires
        evidence_same(a, b),
    ensures
        evidence_fault(a) == evidence_fault(b),
{
}

pub fn clone_strings(v: &Vec<String>) -> (r: Vec<String>)
    ensures
        r@ == v@,
{
    let mut r: Vec<String> = Vec::new();
    let mut i: usize = 0;
    while i < v.len()
        invariant
            i <= v@.len(),
            r@ == v@.subrange(0, i as int),
        decreases v.len() - i,
    {
        r.push(v[i].clone());
        proof {
            assert(v@.subrange(0, i + 1) =~= v@.subrange(0, i as int).push(v@[i as int]));
        }
        i = i + 1;
    }
    proof {
        assert(v@.subrange(0, v@.len() as int) =~= v@);
    }
    r
}

fn clone_opt_string(v: &Option<String>) -> (r: Option<String>)
    ensures
        r == *v,
{
    match v {
        Some(s) => Some(s.clone()),
        None => None,
    }
}

impl Clone for EvidencePayload {
    fn clone(&self) -> (r: EvidencePayload)
        ensures
            payload_same(r, *self),
    {
        match self {
            EvidencePayload::News(n) => EvidencePayload::News(NewsEvidence {
                headline: n.headline.clone(),
                summary: clone_opt_string(&n.summary),
                category: clone_opt_string(&n.category),
                importance: n.importance,
                published_at: n.published_at,
            }),
            EvidencePayload::PredictionMarket(m) => EvidencePayload::PredictionMarket(PredictionMarketEvidence {
                market_id: m.market_id.clone(),
                token_id: m.token_id.clone(),
                question: m.question.clone(),
                implied_probability: m.implied_probability,
                probability_delta: m.probability_delta,
                liquidity: m.liquidity,
                volume: m.volume,
                spread: m.spread,
            }),
            EvidencePayload::Reddit(r) => EvidencePayload::Reddit(RedditEvidence {
                post_id: r.post_id.clone(),
                communities: clone_strings(&r.communities),
                event_type: clone_opt_string(&r.event_type),
                supporting_signals: clone_strings(&r.supporting_signals),
                counter_signals: clone_strings(&r.counter_signals),
                context_comments: r.context_comments,
                event_relevance: r.event_relevance,
                mention_velocity: r.mention_velocity,
                unique_author_velocity: r.unique_author_velocity,
                engagement_velocity: r.engagement_velocity,
                sentiment: r.sentiment,
                sentiment_delta: r.sentiment_delta,
                sentiment_dispersion: r.sentiment_dispersion,
                cross_community_confirmation: r.cross_community_confirmation,
            }),
            EvidencePayload::Marx(m) => EvidencePayload::Marx(MarxEvidence {
                agent_id: m.agent_id.clone(),
                thesis: m.thesis.clone(),
                stance: m.stance,
                supporting_arguments: clone_strings(&m.supporting_arguments),
                counter_arguments: clone_strings(&m.counter_arguments),
                confidence: m.confidence,
            }),
        }
    }
}

pub fn clone_impacts(v: &Vec<AssetImpact>) -> (r: Vec<AssetImpact>)
    ensures
        r@ == v@,
{
    let mut r: Vec<AssetImpact> = Vec::new();
    let mut i: usize = 0;
    while i < v.len()
        invariant
            i <= v@.len(),
            r@ == v@.subrange(0, i as int),
        decreases v.len() - i,
    {
        r.push(v[i].clone());
        proof {
            assert(v@.subrange(0, i + 1) =~= v@.subrange(0, i as int).push(v@[i as int]));
        }
        i = i + 1;
    }
    proof {
        assert(v@.subrange(0, v@.len() as int) =~= v@);
    }
    r
}

impl Clone for IntelligenceEvidence {
    fn clone(&self) -> (r: IntelligenceEvidence)
        ensures
            evidence_same(r, *self),
    {
        IntelligenceEvidence {
            evidence_id: self.evidence_id,
            source: self.source,
            source_event_id: self.source_event_id.clone(),
            event_time: self.event_time,
            observed_at: self.observed_at,
            affected_assets: clone_impacts(&self.affected_assets),
            direction: self.direction,
            strength: self.strength,
            freshness: self.freshness,
            reliability: self.reliability,
            novelty: self.novelty,
            summary: self.summary.clone(),
            source_reference: match &self.source_reference {
                Some(s) => Some(s.clone()),
                None => None,
            },
            event_fingerprint: self.event_fingerprint.clone(),
            lineage_id: self.lineage_id,
            payload: self.payload.clone(),
        }
    }
}

} // verus!
