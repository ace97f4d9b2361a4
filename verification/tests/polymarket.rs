use prooftrade::atk::client::McpTransport;
use prooftrade::atk::error::McpError;
use prooftrade::atk::json::{Json, JsonNumber};
use prooftrade::dec::Dec;
use prooftrade::domain::instrument::Instrument;
use prooftrade::intelligence::evidence::{EvidencePayload, IntelligenceEvidence, IntelligenceSource, Probability};
use prooftrade::intelligence::health::SourceErrorCategory;
use prooftrade::intelligence::query::BoundedEvidenceQuery;
use prooftrade::intelligence::sources::polymarket::{
    default_search_terms, parse_bool, PolymarketConfig, PolymarketMcpError, PolymarketRestError, ProbabilityHistory,
};
use prooftrade::intelligence::sources::polymarket_markets::{
    join_url, metric_for_token, non_empty_string, outcome_index, parse_optional_decimal, string_array,
};
use prooftrade::intelligence::sources::polymarket_mcp::{rpc_result, tool_payload, PolymarketMcpReader};
use prooftrade::intelligence::sources::polymarket_readers::{PolymarketAdapter, PolymarketHybridReader, PolymarketReader};
use prooftrade::intelligence::sources::polymarket_rest::{
    search_pairs, truncate_error_body, PolymarketRestReader, PolymarketRestTransport,
};
use prooftrade::intelligence::sources::{IntelligenceSourceAdapter, SourceError};
use prooftrade::intelligence::service::IntelligenceService;
use prooftrade::intelligence::IntelligenceError;
use prooftrade::timestamp::Timestamp;

fn text(s: &str) -> Json {
    Json::Text(s.to_string())
}

fn object(entries: Vec<(&str, Json)>) -> Json {
    Json::Object(entries.into_iter().map(|(k, v)| (k.to_string(), v)).collect())
}

fn number(s: &str) -> Json {
    Json::Number(JsonNumber { text: s.to_string(), int: s.parse::<i64>().ok() })
}

fn btc() -> Instrument {
    Instrument::parse("BTC-USDT").unwrap()
}

fn at(seconds: i64) -> Timestamp {
    Timestamp { unix_seconds: seconds, nanosecond: 0 }
}

fn probability(mantissa: i64, scale: u32) -> Probability {
    Probability::new(Dec::new(mantissa, scale)).unwrap()
}

fn market() -> Json {
    object(vec![
        ("id", text("m1")),
        ("question", text("  Will BTC close above 100k?  ")),
        ("outcomes", Json::Array(vec![text("No"), text("Yes")])),
        ("outcomePrices", Json::Array(vec![text("0.38"), text("0.62")])),
        ("clobTokenIds", Json::Array(vec![text("t-no"), text("t-yes")])),
        ("slug", text("btc-100k")),
        ("liquidity", text("1000.5")),
        ("volume", number("5000")),
    ])
}

struct FakeMcp {
    alive: bool,
    tools: Vec<&'static str>,
}

impl McpTransport for FakeMcp {
    fn request(&self, method: &str, _params: Json, _timeout: u64) -> Result<Json, McpError> {
        match method {
            "initialize" => Ok(object(vec![("result", object(vec![("protocolVersion", text("2024-11-05"))]))])),
            "tools/list" => Ok(object(vec![(
                "result",
                object(vec![(
                    "tools",
                    Json::Array(self.tools.iter().map(|n| object(vec![("name", text(n))])).collect()),
                )]),
            )])),
            "tools/call" => Ok(object(vec![(
                "result",
                object(vec![("structuredContent", object(vec![("markets", Json::Array(vec![market()]))]))]),
            )])),
            _ => Err(McpError::ProcessExited),
        }
    }

    fn notify(&self, _method: &str, _params: Json) -> Result<(), McpError> {
        Ok(())
    }

    fn is_alive(&self) -> bool {
        self.alive
    }

    fn shutdown(&self) -> Result<(), McpError> {
        Ok(())
    }
}

fn btc_only_config() -> PolymarketConfig {
    PolymarketConfig::default().with_search_terms(btc(), vec!["bitcoin".to_string(), "   ".to_string()])
}

fn btc_query() -> BoundedEvidenceQuery {
    BoundedEvidenceQuery::new(at(1_700_000_000), 10, 5).unwrap().with_instruments(vec![btc()])
}

fn prediction(e: &IntelligenceEvidence) -> &prooftrade::intelligence::evidence::PredictionMarketEvidence {
    match &e.payload {
        EvidencePayload::PredictionMarket(p) => p,
        _ => panic!("not a prediction market record"),
    }
}

#[test]
fn history_reports_change_since_last_observation() {
    let mut history = ProbabilityHistory::new(2).unwrap();
    assert_eq!(history.record("m:t", at(10), probability(40, 2)).unwrap(), None);
    let delta = history.record("m:t", at(20), probability(55, 2)).unwrap().unwrap();
    assert_eq!(delta.value().to_text(), "0.15");
    assert_eq!(history.len_for("m:t"), 2);
    history.record("m:t", at(30), probability(50, 2)).unwrap();
    assert_eq!(history.len_for("m:t"), 2);
    assert_eq!(history.latest_probability("m:t").unwrap().to_text(), "0.50");
    assert_eq!(history.len_for("other"), 0);
}

#[test]
fn history_refuses_blank_market_and_stale_time() {
    assert_eq!(ProbabilityHistory::new(0).unwrap_err(), IntelligenceError::InvalidHistoryCapacity);
    let mut history = ProbabilityHistory::new(4).unwrap();
    assert_eq!(
        history.record("  ", at(10), probability(5, 1)).unwrap_err(),
        IntelligenceError::EmptyField { field: "market_id" }
    );
    history.record("m", at(10), probability(5, 1)).unwrap();
    assert_eq!(history.record("m", at(10), probability(6, 1)).unwrap_err(), IntelligenceError::OutOfOrderObservation);
    assert_eq!(history.len_for("m"), 1);
}

#[test]
fn config_defaults_and_validation() {
    let config = PolymarketConfig::default();
    assert!(config.enabled());
    assert_eq!(config.executable(), "polymarket-mcp");
    assert_eq!(config.gamma_api_url(), "https://gamma-api.polymarket.com");
    assert_eq!(config.clob_api_url(), "https://clob.polymarket.com");
    assert_eq!(config.request_timeout(), 15_000);
    assert_eq!(config.history_capacity(), 32);
    assert_eq!(config.max_markets_per_term(), 5);
    assert!(config.validate().is_ok());
    assert!(!PolymarketConfig::disabled().enabled());
    let terms = default_search_terms();
    let symbols: Vec<&str> = terms.iter().map(|(i, _)| i.symbol()).collect();
    assert_eq!(symbols, vec!["BTC-USDT", "ETH-USDT", "HYPE-USDT", "SOL-USDT"]);
    assert_eq!(terms[2].1, vec!["hyperliquid".to_string(), "hype".to_string()]);

    let bad = PolymarketConfig::default().with_request_timeout(0);
    assert_eq!(
        bad.validate().unwrap_err(),
        PolymarketMcpError::InvalidConfig("request timeout must be positive".to_string())
    );
    let blank_url = PolymarketConfig::default().with_clob_api_url("  ".to_string());
    assert_eq!(
        blank_url.validate().unwrap_err().message(),
        "invalid Polymarket MCP configuration: Gamma and CLOB API URLs cannot be empty"
    );
    let no_terms = PolymarketConfig::default().with_search_terms(btc(), vec![" ".to_string()]);
    assert_eq!(
        no_terms.validate().unwrap_err(),
        PolymarketMcpError::InvalidConfig("at least one valid instrument search term is required".to_string())
    );
}

#[test]
fn search_terms_replace_and_drop_blanks() {
    let config = PolymarketConfig::default().with_search_terms(btc(), vec!["bitcoin".to_string(), " ".to_string(), "xbt".to_string()]);
    let terms = config.search_terms();
    assert_eq!(terms.len(), 4);
    assert_eq!(terms[0].0.symbol(), "BTC-USDT");
    assert_eq!(terms[0].1, vec!["bitcoin".to_string(), "xbt".to_string()]);
}

#[test]
fn switch_values_are_read_in_any_case() {
    assert_eq!(parse_bool(" YES ").unwrap(), true);
    assert_eq!(parse_bool("off").unwrap(), false);
    assert_eq!(parse_bool("0").unwrap(), false);
    assert_eq!(
        parse_bool("maybe").unwrap_err(),
        PolymarketMcpError::InvalidConfig("invalid boolean value: maybe".to_string())
    );
}

#[test]
fn rest_error_categories_and_messages() {
    let cat = |status: u16| PolymarketRestError::HttpStatus { status, body: "x".to_string() }.source_category();
    assert_eq!(cat(429), SourceErrorCategory::RateLimited);
    assert_eq!(cat(401), SourceErrorCategory::Unauthorized);
    assert_eq!(cat(403), SourceErrorCategory::Unauthorized);
    assert_eq!(cat(408), SourceErrorCategory::Timeout);
    assert_eq!(cat(503), SourceErrorCategory::Unavailable);
    assert_eq!(cat(404), SourceErrorCategory::MalformedResponse);
    assert_eq!(PolymarketRestError::Timeout("t".to_string()).source_category(), SourceErrorCategory::Timeout);
    assert_eq!(PolymarketRestError::Request("r".to_string()).source_category(), SourceErrorCategory::Unavailable);
    assert_eq!(
        PolymarketRestError::HttpStatus { status: 502, body: "bad gateway".to_string() }.message(),
        "Polymarket REST returned HTTP 502: bad gateway"
    );
    assert_eq!(
        PolymarketMcpError::Rest(PolymarketRestError::InvalidData("d".to_string())).message(),
        "Polymarket REST error: invalid Polymarket REST data: d"
    );
    assert_eq!(
        PolymarketMcpError::Transport(McpError::RequestTimeout { method: "m".to_string() }).source_category(),
        SourceErrorCategory::Timeout
    );
    assert_eq!(PolymarketMcpError::Transport(McpError::ProcessExited).source_category(), SourceErrorCategory::ProcessFailure);
    assert_eq!(PolymarketMcpError::Protocol("p".to_string()).source_category(), SourceErrorCategory::MalformedResponse);
}

#[test]
fn market_fields_are_read_from_json() {
    let m = market();
    assert_eq!(non_empty_string(m.get("question")).unwrap(), "Will BTC close above 100k?");
    assert_eq!(non_empty_string(m.get("missing")), None);
    let outcomes = string_array(m.get("outcomes"));
    assert_eq!(outcomes, vec!["No".to_string(), "Yes".to_string()]);
    assert_eq!(outcome_index(&outcomes), 1);
    assert_eq!(outcome_index(&vec!["Up".to_string(), "Down".to_string()]), 0);
    let encoded = text("[\"YES\", \"NO\"]");
    assert_eq!(string_array(Some(&encoded)), vec!["YES".to_string(), "NO".to_string()]);
    assert_eq!(parse_optional_decimal(m.get("liquidity")).unwrap().to_text(), "1000.5");
    assert_eq!(parse_optional_decimal(m.get("volume")).unwrap().to_text(), "5000");
    assert_eq!(parse_optional_decimal(m.get("slugless")), None);
    let metrics = object(vec![("t1", text("0.4")), ("t2", number("0.5"))]);
    assert_eq!(metric_for_token(&metrics, "t2").unwrap(), "0.5");
    assert_eq!(metric_for_token(&metrics, "t3"), None);
}

#[test]
fn urls_are_joined_with_one_slash() {
    assert_eq!(join_url("https://clob.polymarket.com//", "/midpoints"), "https://clob.polymarket.com/midpoints");
    assert_eq!(join_url("https://a", "b"), "https://a/b");
}

#[test]
fn error_bodies_are_truncated() {
    assert_eq!(truncate_error_body("short"), "short");
    let long = "x".repeat(600);
    let cut = truncate_error_body(&long);
    assert_eq!(cut.len(), 515);
    assert!(cut.ends_with("..."));
}

#[test]
fn gamma_search_query_is_ordered_by_key() {
    let pairs = search_pairs("bitcoin", 5);
    let keys: Vec<&str> = pairs.iter().map(|(k, _)| k.as_str()).collect();
    assert_eq!(keys, vec!["keep_closed_markets", "limit_per_type", "q", "search_profiles", "search_tags"]);
    assert_eq!(pairs[1].1, "5");
    assert_eq!(pairs[2].1, "bitcoin");
}

#[test]
fn rpc_answers_are_read() {
    let ok = object(vec![("result", text("r"))]);
    assert!(matches!(rpc_result(ok), Ok(Json::Text(t)) if t == "r"));
    let missing = object(vec![]);
    assert_eq!(rpc_result(missing).unwrap_err(), PolymarketMcpError::Protocol("MCP result is missing".to_string()));
    let failed = object(vec![("error", Json::Bool(false))]);
    assert_eq!(rpc_result(failed).unwrap_err(), PolymarketMcpError::Protocol("false".to_string()));
    let textual = object(vec![(
        "result",
        object(vec![("content", Json::Array(vec![object(vec![("type", text("text")), ("text", text("[\"a\"]"))])]))]),
    )]);
    assert!(matches!(tool_payload(textual), Ok(Json::Array(items)) if items.len() == 1));
    let empty = object(vec![("result", object(vec![("content", Json::Array(vec![]))]))]);
    assert_eq!(
        tool_payload(empty).unwrap_err(),
        PolymarketMcpError::Protocol("MCP tool text content is missing".to_string())
    );
}

#[test]
fn mcp_reader_turns_markets_into_evidence() {
    let transport = FakeMcp { alive: true, tools: vec!["search_markets"] };
    let mut reader = PolymarketMcpReader::from_transport(transport, btc_only_config()).unwrap();
    let evidence = reader.collect_polymarket(&btc_query()).unwrap();
    assert_eq!(evidence.len(), 1);
    let e = &evidence[0];
    assert_eq!(e.source, IntelligenceSource::Polymarket);
    assert_eq!(e.source_event_id.as_str(), "m1:t-yes");
    assert_eq!(e.summary, "Polymarket MCP probability for Will BTC close above 100k?: 0.62");
    assert_eq!(e.source_reference.as_ref().unwrap().as_str(), "https://polymarket.com/event/btc-100k");
    assert_eq!(e.affected_assets[0].instrument.symbol(), "BTC-USDT");
    assert_eq!(e.reliability.unwrap().value().to_text(), "0.50");
    let p = prediction(e);
    assert_eq!(p.token_id, "t-yes");
    assert_eq!(p.implied_probability.value().to_text(), "0.62");
    assert!(p.probability_delta.is_none());
    assert_eq!(p.liquidity.unwrap().to_text(), "1000.5");
    assert!(p.spread.is_none());
    assert!(e.validate().is_ok());
    let again = reader.collect_polymarket(&btc_query()).unwrap();
    assert_eq!(prediction(&again[0]).probability_delta.unwrap().value().to_text(), "0.00");
}

#[test]
fn mcp_reader_needs_the_search_tool() {
    let transport = FakeMcp { alive: true, tools: vec!["other"] };
    let err = PolymarketMcpReader::from_transport(transport, btc_only_config()).err().unwrap();
    assert_eq!(err, PolymarketMcpError::Protocol("required search_markets tool is missing".to_string()));
    let dead = FakeMcp { alive: false, tools: vec!["search_markets"] };
    let err = PolymarketMcpReader::from_transport(dead, btc_only_config()).err().unwrap();
    assert_eq!(err, PolymarketMcpError::Transport(McpError::ProcessExited));
    let transport = FakeMcp { alive: true, tools: vec!["search_markets"] };
    let err = PolymarketMcpReader::from_transport(transport, btc_only_config().with_history_capacity(0)).err().unwrap();
    assert_eq!(err, PolymarketMcpError::InvalidConfig("history capacity and market limit must be positive".to_string()));
}

struct FakeRest {
    midpoint: Json,
    posts: usize,
}

impl PolymarketRestTransport for FakeRest {
    fn get_json(&mut self, url: &str, query: &Vec<(String, String)>) -> Result<Json, PolymarketRestError> {
        assert_eq!(url, "https://gamma-api.polymarket.com/public-search");
        assert_eq!(query[2].1, "bitcoin");
        let mut listing = market();
        if let Json::Object(entries) = &mut listing {
            entries.push(("archived".to_string(), Json::Bool(false)));
        }
        Ok(object(vec![("events", Json::Array(vec![object(vec![("markets", Json::Array(vec![listing]))])]))]))
    }

    fn post_json(&mut self, url: &str, body: Json) -> Result<Json, PolymarketRestError> {
        self.posts += 1;
        assert!(matches!(&body, Json::Array(items) if items.len() == 1));
        if url.ends_with("/midpoints") {
            Ok(match &self.midpoint {
                Json::Text(t) => object(vec![("t-yes", text(t))]),
                other => object(vec![("t-yes", match other {
                    Json::Number(n) => Json::Number(JsonNumber { text: n.text.clone(), int: n.int }),
                    _ => Json::Null,
                })]),
            })
        } else {
            Ok(object(vec![("t-yes", text("0.02"))]))
        }
    }
}

#[test]
fn rest_reader_prices_candidates_by_clob_midpoint() {
    let transport = FakeRest { midpoint: text("0.55"), posts: 0 };
    let mut reader = PolymarketRestReader::from_transport(transport, btc_only_config()).unwrap();
    let evidence = reader.collect_polymarket(&btc_query()).unwrap();
    assert_eq!(evidence.len(), 1);
    let e = &evidence[0];
    assert_eq!(e.summary, "Polymarket CLOB midpoint for Will BTC close above 100k?: 0.55");
    assert_eq!(e.reliability.unwrap().value().to_text(), "0.65");
    let p = prediction(e);
    assert_eq!(p.spread.unwrap().to_text(), "0.02");
    assert_eq!(p.volume.unwrap().to_text(), "5000");
}

#[test]
fn rest_reader_refuses_unreadable_midpoint() {
    let transport = FakeRest { midpoint: text("n/a"), posts: 0 };
    let mut reader = PolymarketRestReader::from_transport(transport, btc_only_config()).unwrap();
    let err = reader.collect_polymarket(&btc_query()).unwrap_err();
    assert_eq!(err.source(), IntelligenceSource::Polymarket);
    assert_eq!(err.category(), SourceErrorCategory::MalformedResponse);
}

#[test]
fn rest_reader_refuses_invalid_config_with_its_message() {
    let transport = FakeRest { midpoint: text("0.5"), posts: 0 };
    let err = PolymarketRestReader::from_transport(transport, PolymarketConfig::default().with_executable(String::new()))
        .err()
        .unwrap();
    assert_eq!(
        err,
        PolymarketRestError::InvalidData("invalid Polymarket MCP configuration: executable cannot be empty".to_string())
    );
}

struct Canned(Result<Vec<&'static str>, SourceErrorCategory>, &'static str);

impl PolymarketReader for Canned {
    fn collect_polymarket(&mut self, _query: &BoundedEvidenceQuery) -> Result<Vec<IntelligenceEvidence>, SourceError> {
        match &self.0 {
            Err(c) => Err(SourceError::new(IntelligenceSource::Polymarket, *c)),
            Ok(keys) => {
                let mut reader = PolymarketMcpReader::from_transport(
                    FakeMcp { alive: true, tools: vec!["search_markets"] },
                    btc_only_config(),
                )
                .unwrap();
                let template = reader.collect_polymarket(&btc_query()).unwrap().remove(0);
                Ok(keys
                    .iter()
                    .map(|k| {
                        let mut e = IntelligenceEvidence { summary: format!("{} {}", self.1, k), ..clone_evidence(&template) };
                        e.source_event_id = prooftrade::domain::evidence::SourceEventId::new(k.to_string()).unwrap();
                        e
                    })
                    .collect())
            },
        }
    }
}

fn clone_evidence(e: &IntelligenceEvidence) -> IntelligenceEvidence {
    let p = prediction(e);
    IntelligenceEvidence {
        evidence_id: e.evidence_id,
        source: e.source,
        source_event_id: e.source_event_id.clone(),
        event_time: e.event_time,
        observed_at: e.observed_at,
        affected_assets: e.affected_assets.clone(),
        direction: e.direction,
        strength: e.strength,
        freshness: e.freshness,
        reliability: e.reliability,
        novelty: e.novelty,
        summary: e.summary.clone(),
        source_reference: None,
        event_fingerprint: e.event_fingerprint.clone(),
        lineage_id: e.lineage_id,
        payload: EvidencePayload::PredictionMarket(prooftrade::intelligence::evidence::PredictionMarketEvidence {
            market_id: p.market_id.clone(),
            token_id: p.token_id.clone(),
            question: p.question.clone(),
            implied_probability: p.implied_probability,
            probability_delta: p.probability_delta,
            liquidity: p.liquidity,
            volume: p.volume,
            spread: p.spread,
        }),
    }
}

#[test]
fn hybrid_reader_merges_by_event_and_prefers_rest() {
    assert_eq!(
        PolymarketHybridReader::<Canned, Canned>::new(None, None).err().unwrap(),
        PolymarketMcpError::InvalidConfig("at least one Polymarket reader is required".to_string())
    );
    let mcp = Canned(Ok(vec!["b:1", "a:1"]), "mcp");
    let rest = Canned(Ok(vec!["b:1", "c:1"]), "rest");
    let mut hybrid = PolymarketHybridReader::new(Some(mcp), Some(rest)).unwrap();
    let merged = hybrid.collect_polymarket(&btc_query()).unwrap();
    let keys: Vec<&str> = merged.iter().map(|e| e.source_event_id.as_str()).collect();
    assert_eq!(keys, vec!["a:1", "b:1", "c:1"]);
    assert_eq!(merged[1].summary, "rest b:1");

    let failing = Canned(Err(SourceErrorCategory::Timeout), "mcp");
    let empty = Canned(Ok(vec![]), "rest");
    let mut hybrid = PolymarketHybridReader::new(Some(failing), Some(empty)).unwrap();
    assert_eq!(hybrid.collect_polymarket(&btc_query()).unwrap_err().category(), SourceErrorCategory::Timeout);
}

#[test]
fn disabled_adapter_refuses_without_reading() {
    let mut adapter = PolymarketAdapter::with_enabled(Canned(Ok(vec!["x:1"]), "mcp"), false);
    assert_eq!(adapter.source(), IntelligenceSource::Polymarket);
    assert!(!adapter.is_enabled());
    let err = adapter.collect(&btc_query()).unwrap_err();
    assert_eq!(err.category(), SourceErrorCategory::Disabled);
    adapter.set_enabled(true);
    assert_eq!(adapter.collect(&btc_query()).unwrap().len(), 1);
}

#[test]
fn switching_polymarket_off_lasts_across_collections() {
    let mut service: IntelligenceService<PolymarketAdapter<Canned>> = IntelligenceService::new();
    service.register(PolymarketAdapter::with_enabled(Canned(Ok(vec!["x:1"]), "mcp"), true));
    let first = service.collect(&btc_query()).unwrap();
    assert!(first.disabled_sources().is_empty());
    assert!(service.disable_polymarket());
    assert!(!service.is_source_enabled(IntelligenceSource::Polymarket));
    for _ in 0..2 {
        let snapshot = service.collect(&btc_query()).unwrap();
        assert_eq!(snapshot.disabled_sources(), &[IntelligenceSource::Polymarket]);
        assert!(!service.is_source_enabled(IntelligenceSource::Polymarket));
    }
    assert!(service.enable_polymarket());
    assert!(service.collect(&btc_query()).unwrap().disabled_sources().is_empty());
}
