use prooftrade::atk::json::Json;
use prooftrade::atk::CapabilityReport;
use prooftrade::dec::Dec;
use prooftrade::domain::instrument::Instrument;
use prooftrade::ids::EvidenceId;
use prooftrade::intelligence::evidence::{EvidencePayload, IntelligenceDirection, IntelligenceEvidence, IntelligenceSource};
use prooftrade::intelligence::health::SourceErrorCategory;
use prooftrade::intelligence::query::BoundedEvidenceQuery;
use prooftrade::intelligence::sources::news::{NewsAdapter, NewsCapability, NewsReader};
use prooftrade::intelligence::sources::reddit::{
    candidate_evidence, detect_crypto_arguments, detection_output_check, validate_detection, RedditAdapter,
    RedditCandidate, RedditCandidateContext, RedditCryptoConfig, RedditCryptoReader, RedditDetectionResponse,
    RedditReadOnlyTransport, RedditReader,
};
use prooftrade::intelligence::sources::{IntelligenceSourceAdapter, SourceError};
use prooftrade::timestamp::Timestamp;

fn strings(items: &[&str]) -> Vec<String> {
    items.iter().map(|s| s.to_string()).collect()
}

fn candidate() -> RedditCandidate {
    RedditCandidate {
        schema_version: "1.1".to_string(),
        untrusted_content_notice: true,
        candidate_id: "c1".to_string(),
        pair: "ETH-USDT".to_string(),
        post_id: "p9".to_string(),
        subreddit: "ethfinance".to_string(),
        permalink: "https://reddit.com/r/ethfinance/p9".to_string(),
        title: "Upgrade shipped".to_string(),
        summary: "Mainnet upgrade shipped without incident".to_string(),
        created_at: "2024-01-01T00:00:00Z".to_string(),
        observed_at: "2024-01-01T00:10:00Z".to_string(),
        event_type: "UPGRADE".to_string(),
        event_types: strings(&["UPGRADE", "ADOPTION"]),
        direction: "BULLISH".to_string(),
        event_relevance: Some(Dec::new(8, 1)),
        asset_matches: strings(&["eth"]),
        event_matches: strings(&["upgrade"]),
        supporting_signals: strings(&["launch"]),
        counter_signals: strings(&[]),
        cross_community_subreddits: strings(&["ethereum", "ethfinance"]),
        cross_community_confirmation: Some(Dec::new(6, 1)),
        event_fingerprint: "upgrade:eth:2024-01-01".to_string(),
        detector_rule_version: "crypto-detector/v2".to_string(),
        context: RedditCandidateContext {
            status: "COMPLETE".to_string(),
            comments_scanned: 42,
            unique_authors: 17,
            supporting_signals: strings(&["positive replies"]),
            counter_signals: strings(&["delay worries"]),
        },
    }
}

fn response(candidates: Vec<RedditCandidate>) -> RedditDetectionResponse {
    RedditDetectionResponse {
        command: "detect-crypto".to_string(),
        schema_version: "1.1".to_string(),
        execution_mode: "LIVE_READ_ONLY".to_string(),
        dry_run: true,
        publisher_state: "DISABLED".to_string(),
        policy: Json::Object(vec![]),
        source_health: Json::Object(vec![]),
        searches: Json::Array(vec![]),
        counts: Json::Object(vec![]),
        candidates,
        rejected_posts: vec![Json::Object(vec![])],
        actions: vec![],
    }
}

fn query() -> BoundedEvidenceQuery {
    BoundedEvidenceQuery::new(Timestamp { unix_seconds: 1_704_070_000, nanosecond: 0 }, 5, 5).unwrap()
}

#[test]
fn detection_arguments_for_default_query() {
    let config = RedditCryptoConfig::new("/work".to_string()).unwrap();
    assert_eq!(config.executable, "npm");
    assert_eq!(config.lookback_hours, 6);
    assert_eq!(config.process_timeout, 60_000);
    assert_eq!(config.max_output_bytes, 2 * 1024 * 1024);
    let args = detect_crypto_arguments(&config, &query());
    assert_eq!(
        args,
        strings(&[
            "--silent",
            "run",
            "dev",
            "--",
            "detect-crypto",
            "--mode",
            "LIVE_READ_ONLY",
            "--pairs",
            "BTC-USDT,ETH-USDT,SOL-USDT,HYPE-USDT",
            "--subreddit-profile",
            "prooftrade-crypto",
            "--lookback-hours",
            "6",
            "--max-candidates",
            "5",
            "--min-event-relevance",
            "0.35",
            "--db",
            ".data/prooftrade-crypto-read.sqlite",
        ])
    );
}

#[test]
fn detection_arguments_follow_query_instruments_and_age() {
    let config = RedditCryptoConfig::new("/work".to_string()).unwrap().with_subreddit_profile("p".to_string());
    let q = query()
        .with_instruments(vec![Instrument::parse("SOL-USDT").unwrap(), Instrument::parse("BTC-USDT").unwrap()])
        .with_max_age_seconds(3_601)
        .unwrap();
    let args = detect_crypto_arguments(&config, &q);
    assert_eq!(args[8], "BTC-USDT,SOL-USDT");
    assert_eq!(args[10], "p");
    assert_eq!(args[12], "2");
    let short = query().with_max_age_seconds(0).unwrap();
    assert_eq!(detect_crypto_arguments(&config, &short)[12], "1");
}

#[test]
fn detection_output_is_checked() {
    assert_eq!(detection_output_check(true, 11, 10).unwrap_err().category(), SourceErrorCategory::MalformedResponse);
    assert_eq!(detection_output_check(false, 5, 10).unwrap_err().category(), SourceErrorCategory::ProcessFailure);
    assert!(detection_output_check(true, 10, 10).is_ok());
}

#[test]
fn detection_contract_is_enforced() {
    assert!(validate_detection(&response(vec![candidate()])).is_ok());
    let mut publishing = response(vec![]);
    publishing.publisher_state = "ENABLED".to_string();
    assert_eq!(validate_detection(&publishing).unwrap_err().category(), SourceErrorCategory::InvalidData);
    let mut bad = candidate();
    bad.event_types = strings(&["RUMOR"]);
    assert!(validate_detection(&response(vec![bad])).is_err());
    let mut insecure = candidate();
    insecure.permalink = "http://reddit.com/x".to_string();
    assert!(validate_detection(&response(vec![insecure])).is_err());
    let mut unbounded = candidate();
    unbounded.event_relevance = None;
    assert!(validate_detection(&response(vec![unbounded])).is_err());
    let mut acting = response(vec![]);
    acting.actions = vec![Json::Null];
    assert!(validate_detection(&acting).is_err());
}

fn reddit_payload(e: &IntelligenceEvidence) -> &prooftrade::intelligence::evidence::RedditEvidence {
    match &e.payload {
        EvidencePayload::Reddit(r) => r,
        _ => panic!("not a Reddit record"),
    }
}

#[test]
fn candidate_becomes_reddit_evidence() {
    let e = candidate_evidence(&candidate(), EvidenceId::from_uuid(7)).unwrap();
    assert_eq!(e.evidence_id, EvidenceId::from_uuid(7));
    assert_eq!(e.source, IntelligenceSource::Reddit);
    assert_eq!(e.source_event_id.as_str(), "reddit:ETH-USDT:p9");
    assert_eq!(e.direction, IntelligenceDirection::Bullish);
    assert_eq!(e.event_time.unwrap().unix_seconds, 1_704_067_200);
    assert_eq!(e.observed_at.unix_seconds, 1_704_067_800);
    assert_eq!(e.affected_assets[0].instrument.symbol(), "ETH-USDT");
    assert_eq!(e.strength.unwrap().value().to_text(), "0.8");
    assert!(e.event_fingerprint.as_str().starts_with("sha256:"));
    let r = reddit_payload(&e);
    assert_eq!(r.supporting_signals, strings(&["launch", "positive replies"]));
    assert_eq!(r.counter_signals, strings(&["delay worries"]));
    assert_eq!(r.context_comments, Some(42));
    assert_eq!(r.cross_community_confirmation.unwrap().value().to_text(), "0.6");
    assert!(e.validate().is_ok());
}

#[test]
fn unreadable_candidate_is_invalid_data() {
    let mut c = candidate();
    c.created_at = "yesterday".to_string();
    assert_eq!(candidate_evidence(&c, EvidenceId::from_uuid(1)).unwrap_err().category(), SourceErrorCategory::InvalidData);
    let mut c = candidate();
    c.pair = "ETHUSDT".to_string();
    assert!(candidate_evidence(&c, EvidenceId::from_uuid(1)).is_err());
    let mut c = candidate();
    c.direction = "SIDEWAYS".to_string();
    assert_eq!(candidate_evidence(&c, EvidenceId::from_uuid(1)).unwrap().direction, IntelligenceDirection::Unclear);
}

struct FixedDetector(Option<RedditDetectionResponse>);

impl RedditReadOnlyTransport for FixedDetector {
    fn detect_crypto(&mut self, _config: &RedditCryptoConfig, _query: &BoundedEvidenceQuery) -> Result<RedditDetectionResponse, SourceError> {
        self.0.take().ok_or(SourceError::new(IntelligenceSource::Reddit, SourceErrorCategory::Unavailable))
    }
}

#[test]
fn reddit_reader_keeps_admitted_candidates() {
    let config = RedditCryptoConfig::new("/work".to_string()).unwrap();
    let mut future = candidate();
    future.created_at = "2030-01-01T00:00:00Z".to_string();
    future.observed_at = "2030-01-01T00:00:01Z".to_string();
    let detection = response(vec![candidate(), future]);
    let mut reader = RedditCryptoReader::from_transport(FixedDetector(Some(detection)), config);
    let evidence = reader.collect_reddit(&query()).unwrap();
    assert_eq!(evidence.len(), 1);
    assert_ne!(evidence[0].evidence_id, EvidenceId::from_uuid(0));
    let mut adapter = RedditAdapter::new(reader);
    assert_eq!(adapter.source(), IntelligenceSource::Reddit);
    assert_eq!(adapter.collect(&query()).unwrap_err().category(), SourceErrorCategory::Unavailable);
}

struct OneNews;

impl NewsReader for OneNews {
    fn collect_news(&mut self, _query: &BoundedEvidenceQuery) -> Result<Vec<IntelligenceEvidence>, SourceError> {
        Ok(vec![])
    }
}

#[test]
fn news_needs_capability_and_reader() {
    assert_eq!(NewsCapability::from_atk_news_available(true), NewsCapability::Available);
    assert_eq!(NewsCapability::from_atk_news_available(false), NewsCapability::Missing);
    let mut missing: NewsAdapter<OneNews> = NewsAdapter::with_reader(NewsCapability::Missing, OneNews);
    assert_eq!(missing.collect(&query()).unwrap_err().category(), SourceErrorCategory::CapabilityMissing);
    let mut readerless: NewsAdapter<()> = NewsAdapter::without_reader(NewsCapability::Available);
    assert_eq!(readerless.collect(&query()).unwrap_err().category(), SourceErrorCategory::Unavailable);
    assert_eq!(readerless.source(), IntelligenceSource::AtkNews);
    let mut ready = NewsAdapter::with_reader(NewsCapability::Available, OneNews);
    assert!(ready.collect(&query()).unwrap().is_empty());
    let mut unit = ();
    assert_eq!(unit.collect_news(&query()).unwrap_err().category(), SourceErrorCategory::Unavailable);
}

#[test]
fn news_capability_follows_kit_report() {
    let report = CapabilityReport {
        server_version: "1".to_string(),
        tools: vec![],
        market_data: true,
        account_balance: true,
        spot_order_placement: false,
        spot_order_query: true,
        spot_order_cancellation: false,
        news: true,
        read_only: true,
        demo: true,
        has_auth: false,
        site_verification: prooftrade::atk::SiteVerification::Unreported,
        execution_ready: false,
    };
    assert_eq!(NewsCapability::from_atk_capabilities(&report), NewsCapability::Available);
}
