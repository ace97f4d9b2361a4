//! Reddit crypto detections: the read-only detector's answer is checked
//! against its contract and its candidates become evidence records.

use vstd::prelude::*;

use super::{IntelligenceSourceAdapter, SourceError};
use crate::atk::json::Json;
use crate::dec::{decimal_text, Dec};
use crate::domain::evidence::SourceEventId;
use crate::domain::instrument::{valid_symbol, Instrument};
use crate::ids::EvidenceId;
use crate::intelligence::events::{sha256_hex, EventFingerprint};
use crate::intelligence::evidence::{
    in_unit, AssetImpact, EvidencePayload, IntelligenceDirection, IntelligenceEvidence, IntelligenceSource, RedditEvidence,
    Score, SourceReference,
};
use crate::intelligence::health::SourceErrorCategory;
use crate::intelligence::query::BoundedEvidenceQuery;
use crate::intelligence::IntelligenceError;
use crate::text::{concat, decimal_digits, is_blank, joined, str_eq, str_is_blank, str_starts_with, texts, u64_text};
use crate::timestamp::{parse_rfc3339, rfc3339_instant, Timestamp};

verus! {

/// Something that reads Reddit evidence for a query.
pub trait RedditReader {
    fn collect_reddit(&mut self, query: &BoundedEvidenceQuery) -> Result<Vec<IntelligenceEvidence>, SourceError>;
}

pub struct RedditAdapter<R> {
    reader: R,
}

impl<R> RedditAdapter<R> {
    pub fn new(reader: R) -> RedditAdapter<R> {
        RedditAdapter { reader }
    }
}

impl<R: RedditReader> IntelligenceSourceAdapter for RedditAdapter<R> {
    open spec fn spec_source(&self) -> IntelligenceSource {
        IntelligenceSource::Reddit
    }

    fn source(&self) -> (s: IntelligenceSource) {
        IntelligenceSource::Reddit
    }

    fn is_enabled(&self) -> (b: bool) {
        true
    }

    fn set_enabled(&mut self, enabled: bool) {
    }

    fn collect(&mut self, query: &BoundedEvidenceQuery) -> Result<Vec<IntelligenceEvidence>, SourceError> {
        self.reader.collect_reddit(query)
    }
}

/// How the detector is run: the command, where, which database and
/// subreddit profile, how far back to look, the least event relevance
/// reported, how long to wait (milliseconds) and how much output to accept.
#[derive(Debug)]
pub struct RedditCryptoConfig {
    pub executable: String,
    pub working_dir: String,
    pub db_path: String,
    pub subreddit_profile: String,
    pub lookback_hours: u64,
    pub min_event_relevance: Score,
    pub process_timeout: u64,
    pub max_output_bytes: usize,
}

impl RedditCryptoConfig {
    /// `npm` in the working directory, the read-only database, the
    /// `prooftrade-crypto` profile, six hours back, relevance from 0.35, a
    /// minute per run and two mebibytes of output.
    pub fn new(working_dir: String) -> (r: Result<RedditCryptoConfig, IntelligenceError>)
        ensures
            r matches Ok(c) && {
                &&& c.executable@ == "npm"@
                &&& c.working_dir@ == working_dir@
                &&& c.db_path@ == ".data/prooftrade-crypto-read.sqlite"@
                &&& c.subreddit_profile@ == "prooftrade-crypto"@
                &&& c.lookback_hours == 6
                &&& c.min_event_relevance.spec_value()@ == (35int, 2nat)
                &&& c.process_timeout == 60_000
                &&& c.max_output_bytes == 2 * 1024 * 1024
            },
    {
        let relevance = Score::new(super::polymarket_markets::hundredths(35))?;
        Ok(RedditCryptoConfig {
            executable: String::from_str("npm"),
            working_dir,
            db_path: String::from_str(".data/prooftrade-crypto-read.sqlite"),
            subreddit_profile: String::from_str("prooftrade-crypto"),
            lookback_hours: 6,
            min_event_relevance: relevance,
            process_timeout: 60_000,
            max_output_bytes: 2 * 1024 * 1024,
        })
    }

    pub fn with_executable(self, executable: String) -> (c: RedditCryptoConfig)
        ensures
            c == (RedditCryptoConfig { executable, ..self }),
    {
        RedditCryptoConfig { executable, ..self }
    }

    pub fn with_db_path(self, db_path: String) -> (c: RedditCryptoConfig)
        ensures
            c == (RedditCryptoConfig { db_path, ..self }),
    {
        RedditCryptoConfig { db_path, ..self }
    }

    pub fn with_subreddit_profile(self, profile: String) -> (c: RedditCryptoConfig)
        ensures
            c == (RedditCryptoConfig { subreddit_profile: profile, ..self }),
    {
        RedditCryptoConfig { subreddit_profile: profile, ..self }
    }

    pub fn with_lookback_hours(self, lookback_hours: u64) -> (c: RedditCryptoConfig)
        ensures
            c == (RedditCryptoConfig { lookback_hours, ..self }),
    {
        RedditCryptoConfig { lookback_hours, ..self }
    }

    pub fn with_min_event_relevance(self, relevance: Score) -> (c: RedditCryptoConfig)
        ensures
            c == (RedditCryptoConfig { min_event_relevance: relevance, ..self }),
    {
        RedditCryptoConfig { min_event_relevance: relevance, ..self }
    }

    pub fn with_process_timeout(self, timeout: u64) -> (c: RedditCryptoConfig)
        ensures
            c == (RedditCryptoConfig { process_timeout: timeout, ..self }),
    {
        RedditCryptoConfig { process_timeout: timeout, ..self }
    }

    pub fn with_max_output_bytes(self, max_output_bytes: usize) -> (c: RedditCryptoConfig)
        ensures
            c == (RedditCryptoConfig { max_output_bytes, ..self }),
    {
        RedditCryptoConfig { max_output_bytes, ..self }
    }
}

/// The hours the detector looks back: the query's age limit rounded up to
/// whole hours, at least one; the configured hours without a limit.
pub open spec fn lookback_for(max_age: Option<i64>, configured: u64) -> int {
    match max_age {
        Some(s) => {
            let h = ((if s < 0 { 0 } else { s as int }) + 3_599) / 3_600;
            if h < 1 { 1 } else { h }
        },
        None => configured as int,
    }
}

fn lookback_hours(max_age: Option<i64>, configured: u64) -> (h: u64)
    ensures
        h as int == lookback_for(max_age, configured),
{
    match max_age {
        Some(s) => {
            let seconds: i128 = if s < 0 { 0 } else { s as i128 };
            let hours: i128 = (seconds + 3_599) / 3_600;
            if hours < 1 {
                1
            } else {
                hours as u64
            }
        },
        None => configured,
    }
}

/// The pairs the detector is asked about: the query's instruments, or the
/// four traded ones where it names none, joined by commas.
pub open spec fn detection_pairs(instruments: Seq<Seq<char>>) -> Seq<char> {
    if instruments.len() == 0 {
        "BTC-USDT,ETH-USDT,SOL-USDT,HYPE-USDT"@
    } else {
        joined(instruments, ","@)
    }
}

/// The detector's command line after the executable.
pub open spec fn detection_arguments(config: RedditCryptoConfig, query: BoundedEvidenceQuery) -> Seq<Seq<char>> {
    seq![
        "--silent"@,
        "run"@,
        "dev"@,
        "--"@,
        "detect-crypto"@,
        "--mode"@,
        "LIVE_READ_ONLY"@,
        "--pairs"@,
        detection_pairs(query.spec_instruments()),
        "--subreddit-profile"@,
        config.subreddit_profile@,
        "--lookback-hours"@,
        decimal_digits(lookback_for(query.spec_max_age(), config.lookback_hours) as nat),
        "--max-candidates"@,
        decimal_digits(query.spec_max_results() as nat),
        "--min-event-relevance"@,
        decimal_text(config.min_event_relevance.spec_value()@),
        "--db"@,
        config.db_path@,
    ]
}

/// The arguments of a read-only detection run for the query.
pub fn detect_crypto_arguments(config: &RedditCryptoConfig, query: &BoundedEvidenceQuery) -> (v: Vec<String>)
    ensures
        texts(v@) == detection_arguments(*config, *query),
{
    let instruments = query.instruments();
    let pairs = if instruments.len() == 0 {
        String::from_str("BTC-USDT,ETH-USDT,SOL-USDT,HYPE-USDT")
    } else {
        let mut symbols: Vec<String> = Vec::new();
        let mut i: usize = 0;
        while i < instruments.len()
            invariant
                i <= instruments@.len(),
                texts(symbols@) == crate::intelligence::query::syms(instruments@).take(i as int),
            decreases instruments.len() - i,
        {
            let ghost before = symbols@;
            let sym = instruments[i].to_symbol_string();
            symbols.push(sym);
            proof {
                assert(symbols@ == before.push(sym));
                assert(texts(symbols@) =~= texts(before).push(instruments@[i as int]@));
                assert(texts(symbols@) =~= crate::intelligence::query::syms(instruments@).take(i + 1));
            }
            i = i + 1;
        }
        proof {
            assert(crate::intelligence::query::syms(instruments@).take(instruments@.len() as int) =~= crate::intelligence::query::syms(
                instruments@,
            ));
        }
        crate::text::join_strings(&symbols, ",")
    };
    let hours = lookback_hours(query.max_age_seconds(), config.lookback_hours);
    let mut v: Vec<String> = Vec::new();
    v.push(String::from_str("--silent"));
    v.push(String::from_str("run"));
    v.push(String::from_str("dev"));
    v.push(String::from_str("--"));
    v.push(String::from_str("detect-crypto"));
    v.push(String::from_str("--mode"));
    v.push(String::from_str("LIVE_READ_ONLY"));
    v.push(String::from_str("--pairs"));
    v.push(pairs);
    v.push(String::from_str("--subreddit-profile"));
    v.push(config.subreddit_profile.clone());
    v.push(String::from_str("--lookback-hours"));
    v.push(u64_text(hours));
    v.push(String::from_str("--max-candidates"));
    v.push(u64_text(query.max_results() as u64));
    v.push(String::from_str("--min-event-relevance"));
    v.push(config.min_event_relevance.value().to_text());
    v.push(String::from_str("--db"));
    v.push(config.db_path.clone());
    proof {
        assert(texts(v@) =~= detection_arguments(*config, *query));
    }
    v
}

/// What a finished detection run amounts to: refused as malformed where it
/// wrote more than the limit, as a process failure where it did not
/// succeed.
pub fn detection_output_check(succeeded: bool, output_len: usize, max_output_bytes: usize) -> (r: Result<(), SourceError>)
    ensures
        output_len > max_output_bytes ==> (r matches Err(e) && e.spec_source() == IntelligenceSource::Reddit
            && e.spec_category() == SourceErrorCategory::MalformedResponse),
        output_len <= max_output_bytes && !succeeded ==> (r matches Err(e) && e.spec_source() == IntelligenceSource::Reddit
            && e.spec_category() == SourceErrorCategory::ProcessFailure),
        output_len <= max_output_bytes && succeeded ==> r is Ok,
{
    if output_len > max_output_bytes {
        return Err(SourceError::new(IntelligenceSource::Reddit, SourceErrorCategory::MalformedResponse));
    }
    if !succeeded {
        return Err(SourceError::new(IntelligenceSource::Reddit, SourceErrorCategory::ProcessFailure));
    }
    Ok(())
}

/// What the detector reports about a candidate's comment context.
#[derive(Debug)]
pub struct RedditCandidateContext {
    pub status: String,
    pub comments_scanned: u32,
    pub unique_authors: u32,
    pub supporting_signals: Vec<String>,
    pub counter_signals: Vec<String>,
}

/// A detected event. Relevance and confirmation are the reported numbers
/// as decimals; nothing where a number is not finite.
#[derive(Debug)]
pub struct RedditCandidate {
    pub schema_version: String,
    pub untrusted_content_notice: bool,
    pub candidate_id: String,
    pub pair: String,
    pub post_id: String,
    pub subreddit: String,
    pub permalink: String,
    pub title: String,
    pub summary: String,
    pub created_at: String,
    pub observed_at: String,
    pub event_type: String,
    pub event_types: Vec<String>,
    pub direction: String,
    pub event_relevance: Option<Dec>,
    pub asset_matches: Vec<String>,
    pub event_matches: Vec<String>,
    pub supporting_signals: Vec<String>,
    pub counter_signals: Vec<String>,
    pub cross_community_subreddits: Vec<String>,
    pub cross_community_confirmation: Option<Dec>,
    pub event_fingerprint: String,
    pub detector_rule_version: String,
    pub context: RedditCandidateContext,
}

/// The detector's whole answer.
#[derive(Debug)]
pub struct RedditDetectionResponse {
    pub command: String,
    pub schema_version: String,
    pub execution_mode: String,
    pub dry_run: bool,
    pub publisher_state: String,
    pub policy: Json,
    pub source_health: Json,
    pub searches: Json,
    pub counts: Json,
    pub candidates: Vec<RedditCandidate>,
    pub rejected_posts: Vec<Json>,
    pub actions: Vec<Json>,
}

/// The detector's event kinds.
pub open spec fn reddit_event_type(t: Seq<char>) -> bool {
    ||| t == "EXPLOIT"@
    ||| t == "OUTAGE"@
    ||| t == "LISTING"@
    ||| t == "DELISTING"@
    ||| t == "UNLOCK"@
    ||| t == "UPGRADE"@
    ||| t == "REGULATORY"@
    ||| t == "FLOW"@
    ||| t == "LIQUIDATION"@
    ||| t == "ADOPTION"@
    ||| t == "MARKET_MOVE"@
}

fn is_reddit_event_type(t: &str) -> (b: bool)
    ensures
        b == reddit_event_type(t@),
{
    str_eq(t, "EXPLOIT") || str_eq(t, "OUTAGE") || str_eq(t, "LISTING") || str_eq(t, "DELISTING") || str_eq(t, "UNLOCK")
        || str_eq(t, "UPGRADE") || str_eq(t, "REGULATORY") || str_eq(t, "FLOW") || str_eq(t, "LIQUIDATION") || str_eq(
        t,
        "ADOPTION",
    ) || str_eq(t, "MARKET_MOVE")
}

/// A reported number lies in the unit interval.
pub open spec fn unit_number(d: Option<Dec>) -> bool {
    d matches Some(x) && in_unit(x)
}

/// A candidate keeps the detector's contract.
pub open spec fn candidate_valid(c: RedditCandidate) -> bool {
    &&& c.schema_version@ == "1.1"@
    &&& c.untrusted_content_notice
    &&& !is_blank(c.candidate_id@)
    &&& !is_blank(c.pair@)
    &&& !is_blank(c.post_id@)
    &&& !is_blank(c.subreddit@)
    &&& !is_blank(c.title@)
    &&& !is_blank(c.summary@)
    &&& !is_blank(c.event_type@)
    &&& c.event_types@.len() > 0
    &&& reddit_event_type(c.event_type@)
    &&& forall|i: int| 0 <= i < c.event_types@.len() ==> reddit_event_type(#[trigger] c.event_types@[i]@)
    &&& c.asset_matches@.len() > 0
    &&& c.event_matches@.len() > 0
    &&& c.cross_community_subreddits@.len() > 0
    &&& c.permalink@.len() >= 8 && c.permalink@.take(8) == "https://"@
    &&& unit_number(c.event_relevance)
    &&& unit_number(c.cross_community_confirmation)
    &&& c.detector_rule_version@ == "crypto-detector/v2"@
    &&& (c.direction@ == "BULLISH"@ || c.direction@ == "BEARISH"@ || c.direction@ == "MIXED"@ || c.direction@ == "UNCLEAR"@)
    &&& (c.context.status@ == "NOT_REQUESTED"@ || c.context.status@ == "COMPLETE"@ || c.context.status@ == "UNAVAILABLE"@)
}

/// The answer keeps the detector's read-only contract.
pub open spec fn detection_valid(r: RedditDetectionResponse) -> bool {
    &&& r.command@ == "detect-crypto"@
    &&& r.schema_version@ == "1.1"@
    &&& r.execution_mode@ == "LIVE_READ_ONLY"@
    &&& r.dry_run
    &&& r.publisher_state@ == "DISABLED"@
    &&& r.actions@.len() == 0
    &&& r.policy is Object
    &&& r.source_health is Object
    &&& r.searches is Array
    &&& r.counts is Object
    &&& forall|i: int| 0 <= i < r.rejected_posts@.len() ==> (#[trigger] r.rejected_posts@[i]) is Object
    &&& forall|i: int| 0 <= i < r.candidates@.len() ==> candidate_valid(#[trigger] r.candidates@[i])
}

fn unit_value(d: &Option<Dec>) -> (b: bool)
    ensures
        b == unit_number(*d),
{
    match d {
        Some(x) => !x.is_negative() && !Dec::one().lt(x),
        None => false,
    }
}

fn all_event_types(v: &Vec<String>) -> (b: bool)
    ensures
        b == forall|i: int| 0 <= i < v@.len() ==> reddit_event_type(#[trigger] v@[i]@),
{
    let mut i: usize = 0;
    while i < v.len()
        invariant
            i <= v@.len(),
            forall|k: int| 0 <= k < i ==> reddit_event_type(#[trigger] v@[k]@),
        decreases v.len() - i,
    {
        if !is_reddit_event_type(v[i].as_str()) {
            return false;
        }
        i = i + 1;
    }
    true
}

fn check_candidate(c: &RedditCandidate) -> (b: bool)
    ensures
        b == candidate_valid(*c),
{
    let permalink_ok = str_starts_with(c.permalink.as_str(), "https://");
    proof {
        reveal_strlit("https://");
    }
    let direction = c.direction.as_str();
    let status = c.context.status.as_str();
    str_eq(c.schema_version.as_str(), "1.1") && c.untrusted_content_notice && !str_is_blank(c.candidate_id.as_str())
        && !str_is_blank(c.pair.as_str()) && !str_is_blank(c.post_id.as_str()) && !str_is_blank(c.subreddit.as_str())
        && !str_is_blank(c.title.as_str()) && !str_is_blank(c.summary.as_str()) && !str_is_blank(c.event_type.as_str())
        && c.event_types.len() > 0 && is_reddit_event_type(c.event_type.as_str()) && all_event_types(&c.event_types)
        && c.asset_matches.len() > 0 && c.event_matches.len() > 0 && c.cross_community_subreddits.len() > 0
        && permalink_ok && unit_value(&c.event_relevance) && unit_value(&c.cross_community_confirmation) && str_eq(
        c.detector_rule_version.as_str(),
        "crypto-detector/v2",
    ) && (str_eq(direction, "BULLISH") || str_eq(direction, "BEARISH") || str_eq(direction, "MIXED") || str_eq(
        direction,
        "UNCLEAR",
    )) && (str_eq(status, "NOT_REQUESTED") || str_eq(status, "COMPLETE") || str_eq(status, "UNAVAILABLE"))
}

fn all_objects(v: &Vec<Json>) -> (b: bool)
    ensures
        b == forall|i: int| 0 <= i < v@.len() ==> (#[trigger] v@[i]) is Object,
{
    let mut i: usize = 0;
    while i < v.len()
        invariant
            i <= v@.len(),
            forall|k: int| 0 <= k < i ==> (#[trigger] v@[k]) is Object,
        decreases v.len() - i,
    {
        if !v[i].is_object() {
            return false;
        }
        i = i + 1;
    }
    true
}

/// Refuses, as invalid Reddit data, an answer that breaks the detector's
/// read-only contract.
pub fn validate_detection(response: &RedditDetectionResponse) -> (r: Result<(), SourceError>)
    ensures
        r is Ok <==> detection_valid(*response),
        r matches Err(e) ==> e.spec_source() == IntelligenceSource::Reddit && e.spec_category() == SourceErrorCategory::InvalidData,
{
    let searches_array = match &response.searches {
        Json::Array(_) => true,
        _ => false,
    };
    let ok = str_eq(response.command.as_str(), "detect-crypto") && str_eq(response.schema_version.as_str(), "1.1")
        && str_eq(response.execution_mode.as_str(), "LIVE_READ_ONLY") && response.dry_run && str_eq(
        response.publisher_state.as_str(),
        "DISABLED",
    ) && response.actions.len() == 0 && response.policy.is_object() && response.source_health.is_object()
        && searches_array && response.counts.is_object() && all_objects(&response.rejected_posts);
    if !ok {
        return Err(SourceError::new(IntelligenceSource::Reddit, SourceErrorCategory::InvalidData));
    }
    let mut i: usize = 0;
    while i < response.candidates.len()
        invariant
            i <= response.candidates@.len(),
            forall|k: int| 0 <= k < i ==> candidate_valid(#[trigger] response.candidates@[k]),
        decreases response.candidates.len() - i,
    {
        if !check_candidate(&response.candidates[i]) {
            return Err(SourceError::new(IntelligenceSource::Reddit, SourceErrorCategory::InvalidData));
        }
        i = i + 1;
    }
    Ok(())
}

/// The direction a detection reports.
pub open spec fn direction_of(d: Seq<char>) -> IntelligenceDirection {
    if d == "BULLISH"@ {
        IntelligenceDirection::Bullish
    } else if d == "BEARISH"@ {
        IntelligenceDirection::Bearish
    } else if d == "MIXED"@ {
        IntelligenceDirection::Mixed
    } else {
        IntelligenceDirection::Unclear
    }
}

/// The detector's labels give their own directions: a bullish, bearish,
/// mixed or unclear post gives evidence with that direction, so the first
/// three never share one.
pub proof fn detector_labels_keep_direction(e: IntelligenceEvidence, c: RedditCandidate, id: EvidenceId)
    requires
        reddit_evidence(e, c, id),
    ensures
        c.direction@ == "BULLISH"@ ==> e.direction == IntelligenceDirection::Bullish,
        c.direction@ == "BEARISH"@ ==> e.direction == IntelligenceDirection::Bearish,
        c.direction@ == "MIXED"@ ==> e.direction == IntelligenceDirection::Mixed,
        c.direction@ == "UNCLEAR"@ ==> e.direction == IntelligenceDirection::Unclear,
{
    reveal_strlit("BULLISH");
    reveal_strlit("BEARISH");
    reveal_strlit("MIXED");
    reveal_strlit("UNCLEAR");
    assert("BULLISH"@ != "BEARISH"@ && "BULLISH"@ != "MIXED"@ && "BULLISH"@ != "UNCLEAR"@) by {
        assert("BULLISH"@[1] != "BEARISH"@[1]);
        assert("BULLISH"@.len() != "MIXED"@.len());
        assert("BULLISH"@[0] != "UNCLEAR"@[0]);
    }
    assert("BEARISH"@ != "MIXED"@ && "BEARISH"@ != "UNCLEAR"@) by {
        assert("BEARISH"@.len() != "MIXED"@.len());
        assert("BEARISH"@[0] != "UNCLEAR"@[0]);
    }
    assert("MIXED"@ != "UNCLEAR"@) by {
        assert("MIXED"@.len() != "UNCLEAR"@.len());
    }
}

/// Everything a candidate's record is built from can be read.
pub open spec fn candidate_readable(c: RedditCandidate) -> bool {
    &&& valid_symbol(c.pair@)
    &&& rfc3339_instant(c.observed_at@) is Some
    &&& rfc3339_instant(c.created_at@) is Some
    &&& unit_number(c.event_relevance)
    &&& !is_blank(c.event_fingerprint@)
    &&& !is_blank(c.permalink@)
    &&& unit_number(c.cross_community_confirmation)
}

/// `reddit:pair:post`, the source event of a detection.
pub open spec fn reddit_event_key(c: RedditCandidate) -> Seq<char> {
    "reddit:"@ + c.pair@ + ":"@ + c.post_id@
}

/// The record a readable candidate makes, under the given identifier.
pub open spec fn reddit_evidence(e: IntelligenceEvidence, c: RedditCandidate, id: EvidenceId) -> bool {
    &&& e.evidence_id == id
    &&& e.source == IntelligenceSource::Reddit
    &&& e.source_event_id@ == reddit_event_key(c)
    &&& e.event_time == rfc3339_instant(c.created_at@)
    &&& Some(e.observed_at) == rfc3339_instant(c.observed_at@)
    &&& e.affected_assets@.len() == 1
    &&& e.affected_assets@[0].instrument@ == c.pair@
    &&& Some(e.affected_assets@[0].relevance.spec_value()) == c.event_relevance
    &&& e.direction == direction_of(c.direction@)
    &&& e.strength matches Some(s) && Some(s.spec_value()) == c.event_relevance
    &&& e.freshness is None
    &&& e.reliability is None
    &&& e.novelty is None
    &&& e.summary@ == c.summary@
    &&& e.source_reference matches Some(r) && r.spec_text() == c.permalink@
    &&& e.event_fingerprint.spec_text() == "sha256:"@ + sha256_hex(c.event_fingerprint@)
    &&& e.lineage_id is None
    &&& e.payload matches EvidencePayload::Reddit(p) && {
        &&& p.post_id@ == c.post_id@
        &&& texts(p.communities@) == texts(c.cross_community_subreddits@)
        &&& p.event_type matches Some(t) && t@ == c.event_type@
        &&& texts(p.supporting_signals@) == texts(c.supporting_signals@) + texts(c.context.supporting_signals@)
        &&& texts(p.counter_signals@) == texts(c.counter_signals@) + texts(c.context.counter_signals@)
        &&& p.context_comments == Some(c.context.comments_scanned)
        &&& Some(p.event_relevance.spec_value()) == c.event_relevance
        &&& p.mention_velocity is None
        &&& p.unique_author_velocity is None
        &&& p.engagement_velocity is None
        &&& p.sentiment is None
        &&& p.sentiment_delta is None
        &&& p.sentiment_dispersion is None
        &&& p.cross_community_confirmation matches Some(x) && Some(x.spec_value()) == c.cross_community_confirmation
    }
}

fn invalid_data() -> (e: SourceError)
    ensures
        e.spec_source() == IntelligenceSource::Reddit,
        e.spec_category() == SourceErrorCategory::InvalidData,
{
    SourceError::new(IntelligenceSource::Reddit, SourceErrorCategory::InvalidData)
}

fn unit_score(d: &Option<Dec>) -> (r: Result<Score, SourceError>)
    ensures
        r is Ok <==> unit_number(*d),
        r matches Ok(s) ==> Some(s.spec_value()) == *d,
        r matches Err(e) ==> e.spec_source() == IntelligenceSource::Reddit && e.spec_category() == SourceErrorCategory::InvalidData,
{
    match d {
        Some(x) => match Score::new(*x) {
            Ok(s) => Ok(s),
            Err(_) => Err(invalid_data()),
        },
        None => Err(invalid_data()),
    }
}

fn joined_copy(a: &Vec<String>, b: &Vec<String>) -> (r: Vec<String>)
    ensures
        texts(r@) == texts(a@) + texts(b@),
{
    let mut r = crate::intelligence::evidence::clone_strings(a);
    let mut i: usize = 0;
    let ghost start = r@;
    while i < b.len()
        invariant
            i <= b@.len(),
            texts(r@) == texts(a@) + texts(b@).take(i as int),
        decreases b.len() - i,
    {
        let ghost before = r@;
        let s = b[i].clone();
        r.push(s);
        proof {
            assert(texts(r@) =~= texts(before).push(b@[i as int]@));
            assert(texts(r@) =~= texts(a@) + texts(b@).take(i + 1));
        }
        i = i + 1;
    }
    proof {
        assert(texts(b@).take(b@.len() as int) =~= texts(b@));
    }
    r
}

/// The evidence record of a detection, under the given identifier;
/// refused as invalid Reddit data where a part cannot be read.
pub fn candidate_evidence(candidate: &RedditCandidate, evidence_id: EvidenceId) -> (r: Result<IntelligenceEvidence, SourceError>)
    ensures
        r is Ok <==> candidate_readable(*candidate),
        r matches Ok(e) ==> reddit_evidence(e, *candidate, evidence_id),
        r matches Err(e) ==> e.spec_source() == IntelligenceSource::Reddit && e.spec_category() == SourceErrorCategory::InvalidData,
{
    let instrument = match Instrument::parse(candidate.pair.as_str()) {
        Ok(i) => i,
        Err(_) => {
            return Err(invalid_data());
        },
    };
    let observed_at = match parse_rfc3339(candidate.observed_at.as_str()) {
        Ok(t) => t,
        Err(_) => {
            return Err(invalid_data());
        },
    };
    let event_time = match parse_rfc3339(candidate.created_at.as_str()) {
        Ok(t) => t,
        Err(_) => {
            return Err(invalid_data());
        },
    };
    let relevance = unit_score(&candidate.event_relevance)?;
    let d = candidate.direction.as_str();
    let direction = if str_eq(d, "BULLISH") {
        IntelligenceDirection::Bullish
    } else if str_eq(d, "BEARISH") {
        IntelligenceDirection::Bearish
    } else if str_eq(d, "MIXED") {
        IntelligenceDirection::Mixed
    } else {
        IntelligenceDirection::Unclear
    };
    let event_fingerprint = match EventFingerprint::from_canonical_key(candidate.event_fingerprint.clone()) {
        Ok(f) => f,
        Err(_) => {
            return Err(invalid_data());
        },
    };
    let head = concat("reddit:", candidate.pair.as_str());
    let head = concat(head.as_str(), ":");
    let key = concat(head.as_str(), candidate.post_id.as_str());
    proof {
        reveal_strlit("reddit:");
        assert(key@ == reddit_event_key(*candidate));
        assert(key@[0] == 'r');
        assert(!crate::text::is_ws(key@[0]));
    }
    let source_event_id = match SourceEventId::new(key) {
        Ok(id) => id,
        Err(_) => {
            return Err(invalid_data());
        },
    };
    let source_reference = match SourceReference::new(candidate.permalink.clone()) {
        Ok(r) => r,
        Err(_) => {
            return Err(invalid_data());
        },
    };
    let confirmation = unit_score(&candidate.cross_community_confirmation)?;
    let mut affected_assets: Vec<AssetImpact> = Vec::new();
    affected_assets.push(AssetImpact { instrument, relevance });
    Ok(IntelligenceEvidence {
        evidence_id,
        source: IntelligenceSource::Reddit,
        source_event_id,
        event_time: Some(event_time),
        observed_at,
        affected_assets,
        direction,
        strength: Some(relevance),
        freshness: None,
        reliability: None,
        novelty: None,
        summary: candidate.summary.clone(),
        source_reference: Some(source_reference),
        event_fingerprint,
        lineage_id: None,
        payload: EvidencePayload::Reddit(RedditEvidence {
            post_id: candidate.post_id.clone(),
            communities: crate::intelligence::evidence::clone_strings(&candidate.cross_community_subreddits),
            event_type: Some(candidate.event_type.clone()),
            supporting_signals: joined_copy(&candidate.supporting_signals, &candidate.context.supporting_signals),
            counter_signals: joined_copy(&candidate.counter_signals, &candidate.context.counter_signals),
            context_comments: Some(candidate.context.comments_scanned),
            event_relevance: relevance,
            mention_velocity: None,
            unique_author_velocity: None,
            engagement_velocity: None,
            sentiment: None,
            sentiment_delta: None,
            sentiment_dispersion: None,
            cross_community_confirmation: Some(confirmation),
        }),
    })
}

/// Runs the read-only detector and reads its answer.
pub trait RedditReadOnlyTransport {
    fn detect_crypto(&mut self, config: &RedditCryptoConfig, query: &BoundedEvidenceQuery) -> Result<RedditDetectionResponse, SourceError>;
}

/// Reads Reddit detections through a detector transport.
pub struct RedditCryptoReader<T> {
    transport: T,
    config: RedditCryptoConfig,
}

impl<T: RedditReadOnlyTransport> RedditCryptoReader<T> {
    pub closed spec fn spec_config(&self) -> RedditCryptoConfig {
        self.config
    }

    pub fn from_transport(transport: T, config: RedditCryptoConfig) -> (r: RedditCryptoReader<T>)
        ensures
            r.spec_config() == config,
    {
        RedditCryptoReader { transport, config }
    }
}

/// The records a detection answer gives the query: its first
/// `max_results` candidates, each as a record, kept where the query admits
/// it.
pub open spec fn reddit_collected(v: Seq<IntelligenceEvidence>, query: BoundedEvidenceQuery) -> bool {
    &&& v.len() <= query.spec_max_results()
    &&& forall|i: int| 0 <= i < v.len() ==> (#[trigger] v[i]).source == IntelligenceSource::Reddit && query.admits(v[i])
}

impl<T: RedditReadOnlyTransport> RedditReader for RedditCryptoReader<T> {
    /// The detector's answer must keep its contract and every candidate
    /// read must be readable; candidates after the first `max_results` are
    /// not read.
    fn collect_reddit(&mut self, query: &BoundedEvidenceQuery) -> (r: Result<Vec<IntelligenceEvidence>, SourceError>)
        ensures
            r matches Ok(v) ==> reddit_collected(v@, *query),
    {
        let response = self.transport.detect_crypto(&self.config, query)?;
        validate_detection(&response)?;
        let max = query.max_results();
        let n = if response.candidates.len() < max { response.candidates.len() } else { max };
        let mut evidence: Vec<IntelligenceEvidence> = Vec::new();
        let mut i: usize = 0;
        while i < n
            invariant
                i <= n,
                n <= response.candidates@.len(),
                n <= query.spec_max_results(),
                evidence@.len() <= i,
                forall|k: int| 0 <= k < evidence@.len() ==> (#[trigger] evidence@[k]).source == IntelligenceSource::Reddit
                    && query.admits(evidence@[k]),
            decreases n - i,
        {
            let item = candidate_evidence(&response.candidates[i], EvidenceId::new())?;
            if query.matches(&item) {
                evidence.push(item);
            }
            i = i + 1;
        }
        Ok(evidence)
    }
}

} // verus!
