//! The Polymarket MCP reader: searches markets through the Polymarket MCP
//! server and turns their listed probabilities into evidence.

use vstd::prelude::*;

use super::polymarket::{last_n, record_result, PolymarketConfig, PolymarketConfigView, PolymarketMcpError, ProbabilityHistory, ProbabilityObservation, terms_keyed};
use super::polymarket_markets::{
    PricingBook,
    build_market_evidence, delta_of, hundredths, listing_fields, market_evidence, market_reference, non_empty_string,
    nonblank_trimmed, opt_json, opt_view, optional_metric, outcome_index, outcome_key, parse_optional_decimal,
    listed_strings, reference_for, string_array, yes_index_from,
};
use super::polymarket_readers::PolymarketReader;
use super::SourceError;
use crate::atk::client::{McpTransport, SpawnTransport};
use crate::atk::error::McpError;
use crate::atk::json::{field_bool, field_text, json_get, json_is_text, scalar_text, text_of, decode_json, decoded_json, Json, JsonNumber};
use crate::dec::{decimal_parse, one_units, parse_decimal, units, DecView};
use crate::domain::instrument::Instrument;
use crate::intelligence::evidence::{in_unit, IntelligenceEvidence, IntelligenceSource, Probability};
use crate::intelligence::query::BoundedEvidenceQuery;
use crate::intelligence::IntelligenceError;
use crate::text::{concat, is_blank, str_eq, str_is_blank, texts, trim_text, trimmed, u64_text};
use crate::timestamp::{now_utc, Timestamp};

verus! {

fn text_entry(key: &str, value: &str) -> (e: (String, Json))
    ensures
        e.0@ == key@,
        e.1 matches Json::Text(t) && t@ == value@,
{
    (String::from_str(key), Json::Text(String::from_str(value)))
}

/// The `initialize` parameters: protocol version 2024-11-05, no
/// capabilities, and the client's name and version.
fn initialize_params() -> Json {
    let mut client_info: Vec<(String, Json)> = Vec::new();
    client_info.push(text_entry("name", "prooftrade"));
    client_info.push(text_entry("version", "0.1.0"));
    let mut params: Vec<(String, Json)> = Vec::new();
    params.push(text_entry("protocolVersion", "2024-11-05"));
    params.push((String::from_str("capabilities"), Json::empty_object()));
    params.push((String::from_str("clientInfo"), Json::Object(client_info)));
    Json::Object(params)
}

/// A JSON number for a count.
pub fn count_number(n: u64) -> (v: Json)
    ensures
        v matches Json::Number(x) && x.text@ == crate::text::decimal_digits(n as nat) && (n <= i64::MAX ==> x.int == Some(
            n as i64,
        )),
{
    let small: Option<i64> = if n <= 0x7fff_ffff_ffff_ffff {
        Some(n as i64)
    } else {
        None
    };
    Json::Number(JsonNumber { text: u64_text(n), int: small })
}

/// The `tools/call` parameters of a market search for a keyword.
fn search_params(keyword: &str, limit: u64) -> Json {
    let mut arguments: Vec<(String, Json)> = Vec::new();
    arguments.push(text_entry("keyword", keyword));
    arguments.push((String::from_str("limit"), count_number(limit)));
    let mut params: Vec<(String, Json)> = Vec::new();
    params.push(text_entry("name", "search_markets"));
    params.push((String::from_str("arguments"), Json::Object(arguments)));
    Json::Object(params)
}

/// How an MCP answer is read: its error, rendered, as a protocol failure;
/// else its result; a missing result is a protocol failure.
pub open spec fn mcp_rpc_outcome(response: Json, r: Result<Json, PolymarketMcpError>) -> bool {
    match json_get(response, "error"@) {
        Some(e) => r matches Err(PolymarketMcpError::Protocol(m)) && (scalar_text(e) matches Some(t) ==> m@ == t),
        None => match json_get(response, "result"@) {
            Some(x) => r == Ok::<Json, PolymarketMcpError>(x),
            None => r matches Err(PolymarketMcpError::Protocol(m)) && m@ == "MCP result is missing"@,
        },
    }
}

pub fn rpc_result(response: Json) -> (r: Result<Json, PolymarketMcpError>)
    ensures
        mcp_rpc_outcome(response, r),
{
    match response.get("error") {
        Some(error) => {
            return Err(PolymarketMcpError::Protocol(error.render()));
        },
        None => {},
    }
    match crate::atk::replies::take_member(response, "result") {
        Some(result) => Ok(result),
        None => Err(PolymarketMcpError::Protocol(String::from_str("MCP result is missing"))),
    }
}

/// The text of the first content item of type `text` that has one.
pub open spec fn first_text_content(items: Seq<Json>, i: int) -> Option<Seq<char>>
    decreases items.len() - i,
{
    if i < 0 || i >= items.len() {
        None
    } else if json_get(items[i], "type"@) matches Some(t) && json_is_text(t, "text"@) && field_text(items[i], "text"@) is Some {
        field_text(items[i], "text"@)
    } else {
        first_text_content(items, i + 1)
    }
}

/// The text a tool result carries in its content.
pub open spec fn tool_text(result: Json) -> Option<Seq<char>> {
    match json_get(result, "content"@) {
        Some(Json::Array(items)) => first_text_content(items@, 0),
        _ => None,
    }
}

fn find_tool_text(result: &Json) -> (r: Option<&str>)
    ensures
        r matches Some(s) ==> tool_text(*result) == Some(s@),
        r is None ==> tool_text(*result) is None,
{
    match result.get("content") {
        Some(Json::Array(items)) => {
            let mut i: usize = 0;
            while i < items.len()
                invariant
                    i <= items@.len(),
                    tool_text(*result) == first_text_content(items@, 0),
                    first_text_content(items@, 0) == first_text_content(items@, i as int),
                decreases items.len() - i,
            {
                let item = &items[i];
                let typed = match item.get("type") {
                    Some(t) => match t.as_str() {
                        Some(s) => str_eq(s, "text"),
                        None => false,
                    },
                    None => false,
                };
                if typed {
                    match item.text_field("text") {
                        Some(text) => {
                            proof {
                                assert(first_text_content(items@, i as int) == field_text(items@[i as int], "text"@));
                            }
                            return Some(text);
                        },
                        None => {},
                    }
                }
                i = i + 1;
            }
            None
        },
        _ => None,
    }
}

/// What a tool call gives: the structured content where there is some,
/// else the JSON that its text content holds.
pub open spec fn tool_payload_outcome(response: Json, r: Result<Json, PolymarketMcpError>) -> bool {
    match json_get(response, "error"@) {
        Some(_) => mcp_rpc_outcome(response, r),
        None => match json_get(response, "result"@) {
            None => mcp_rpc_outcome(response, r),
            Some(result) => match json_get(result, "structuredContent"@) {
                Some(s) => r == Ok::<Json, PolymarketMcpError>(s),
                None => match tool_text(result) {
                    None => r matches Err(PolymarketMcpError::Protocol(m)) && m@ == "MCP tool text content is missing"@,
                    Some(t) => match decoded_json(t) {
                        Some(v) => r == Ok::<Json, PolymarketMcpError>(v),
                        None => r matches Err(PolymarketMcpError::InvalidData(_)),
                    },
                },
            },
        },
    }
}

pub fn tool_payload(response: Json) -> (r: Result<Json, PolymarketMcpError>)
    ensures
        tool_payload_outcome(response, r),
{
    let ghost resp = response;
    let result = rpc_result(response)?;
    if result.get("structuredContent").is_some() {
        let r = crate::atk::replies::take_member(result, "structuredContent");
        return Ok(r.unwrap());
    }
    let text = match find_tool_text(&result) {
        Some(t) => t,
        None => {
            return Err(PolymarketMcpError::Protocol(String::from_str("MCP tool text content is missing")));
        },
    };
    match decode_json(text) {
        Ok(v) => Ok(v),
        Err(message) => Err(PolymarketMcpError::InvalidData(message)),
    }
}

/// The identifier, question, `yes` token and listed price of an open
/// market, where the listing names them.
pub open spec fn mcp_listing(m: Json, outcomes: Seq<Seq<char>>, prices: Seq<Seq<char>>, tokens: Seq<Seq<char>>) -> Option<
    (Seq<char>, Seq<char>, Seq<char>, Seq<char>),
> {
    match listing_fields(m, false) {
        None => None,
        Some((id, question)) => if prices.len() == 0 || tokens.len() == 0 {
            None
        } else {
            let k = yes_index_from(outcomes, 0);
            if k < prices.len() && k < tokens.len() {
                Some((id, question, tokens[k], prices[k]))
            } else {
                None
            }
        },
    }
}

/// How a listed market is priced: nothing for a market without a usable
/// listing; a refusal of a price that is not a decimal or not a
/// probability; else the history's answer and the evidence record.
pub open spec fn mcp_pricing(
    m: Json,
    outcomes: Seq<Seq<char>>,
    prices: Seq<Seq<char>>,
    tokens: Seq<Seq<char>>,
    instrument: Instrument,
    t: Timestamp,
    prev: spec_fn(Seq<char>) -> Seq<ProbabilityObservation>,
    r: Result<Option<IntelligenceEvidence>, PolymarketMcpError>,
) -> bool {
    match mcp_listing(m, outcomes, prices, tokens) {
        None => r matches Ok(None),
        Some((id, question, token, price)) => match decimal_parse(trimmed(price)) {
            None => r matches Err(PolymarketMcpError::InvalidData(msg)) && msg@ == "outcome price is not a decimal: "@ + price,
            Some(p) => if !(0 <= units(p) <= one_units()) {
                r matches Err(PolymarketMcpError::Intelligence(IntelligenceError::ScoreOutOfRange { field, value }))
                    && field == "probability" && value@ == p
            } else {
                match r {
                    Ok(Some(e)) => {
                        &&& record_result(prev(outcome_key(id, token)), outcome_key(id, token), t, p, Ok(delta_of(e)))
                        &&& market_evidence(
                            e,
                            id,
                            token,
                            question,
                            instrument,
                            p,
                            t,
                            (50int, 2nat),
                            "Polymarket MCP probability for "@,
                            market_reference(m, id),
                            optional_metric(json_get(m, "liquidity"@)),
                            optional_metric(json_get(m, "volume"@)),
                            None,
                        )
                    },
                    Err(PolymarketMcpError::Intelligence(x)) => record_result(
                        prev(outcome_key(id, token)),
                        outcome_key(id, token),
                        t,
                        p,
                        Err(x),
                    ),
                    _ => false,
                }
            },
        },
    }
}

/// Prices a market listing observed at `observed_at`, given its outcomes,
/// prices and tokens, recording the probability in the history.
pub fn price_listing(
    history: &mut ProbabilityHistory,
    market: &Json,
    instrument: &Instrument,
    outcomes: &Vec<String>,
    prices: &Vec<String>,
    token_ids: &Vec<String>,
    observed_at: Timestamp,
) -> (r: Result<Option<IntelligenceEvidence>, PolymarketMcpError>)
    requires
        old(history).wf(),
    ensures
        final(history).wf(),
        final(history).spec_capacity() == old(history).spec_capacity(),
        mcp_pricing(
            *market,
            texts(outcomes@),
            texts(prices@),
            texts(token_ids@),
            *instrument,
            observed_at,
            |k: Seq<char>| old(history).spec_kept(k),
            r,
        ),
        !(r matches Ok(Some(_))) ==> *final(history) == *old(history),
        r matches Ok(Some(e)) ==> {
            let key = e.source_event_id@;
            &&& final(history).spec_kept(key) == last_n(
                old(history).spec_kept(key).push(ProbabilityObservation { observed_at, probability: match e.payload {
                    crate::intelligence::evidence::EvidencePayload::PredictionMarket(pm) => pm.implied_probability,
                    _ => arbitrary(),
                } }),
                old(history).spec_capacity(),
            )
            &&& forall|m: Seq<char>| m != key ==> #[trigger] final(history).spec_kept(m) == old(history).spec_kept(m)
        },
{
    if market.bool_field("active") == Some(false) || market.bool_field("closed") == Some(true) {
        return Ok(None);
    }
    let market_id = match non_empty_string(market.get("id")) {
        Some(s) => s,
        None => {
            return Ok(None);
        },
    };
    let question = match non_empty_string(market.get("question")) {
        Some(s) => s,
        None => {
            return Ok(None);
        },
    };
    if prices.len() == 0 || token_ids.len() == 0 {
        return Ok(None);
    }
    let k = outcome_index(outcomes);
    if k >= prices.len() || k >= token_ids.len() {
        return Ok(None);
    }
    let price_text = &prices[k];
    let token_id = &token_ids[k];
    let trimmed_price = trim_text(price_text.as_str());
    let value = match parse_decimal(trimmed_price.as_str()) {
        Some(d) => d,
        None => {
            return Err(PolymarketMcpError::InvalidData(concat("outcome price is not a decimal: ", price_text.as_str())));
        },
    };
    let probability = match Probability::new(value) {
        Ok(p) => p,
        Err(e) => {
            return Err(PolymarketMcpError::Intelligence(e));
        },
    };
    let reference = reference_for(market, market_id.as_str());
    proof {
        crate::text::lemma_blank_trimmed(text_of(json_get(*market, "question"@)).unwrap());
        crate::text::lemma_trimmed_idempotent(text_of(json_get(*market, "question"@)).unwrap());
        crate::text::lemma_blank_trimmed(question@);
        reveal_strlit("https://polymarket.com/event/");
        reveal_strlit("polymarket://market/");
        assert(reference@[0] != ' ');
        assert(!crate::text::is_ws(reference@[0]));
    }
    let liquidity = parse_optional_decimal(market.get("liquidity"));
    let volume = parse_optional_decimal(market.get("volume"));
    match build_market_evidence(
        history,
        &market_id,
        token_id,
        &question,
        instrument,
        probability,
        observed_at,
        hundredths(50),
        "Polymarket MCP probability for ",
        reference,
        liquidity,
        volume,
        None,
    ) {
        Ok(e) => Ok(Some(e)),
        Err(x) => Err(PolymarketMcpError::Intelligence(x)),
    }
}

/// The tool list names `search_markets`.
pub open spec fn lists_search_markets(result: Json) -> bool {
    match json_get(result, "tools"@) {
        Some(Json::Array(items)) => exists|i: int| 0 <= i < items@.len() && field_text(#[trigger] items@[i], "name"@) == Some(
            "search_markets"@,
        ),
        _ => false,
    }
}

fn has_search_tool(result: &Json) -> (b: bool)
    ensures
        b == lists_search_markets(*result),
{
    match result.get("tools") {
        Some(Json::Array(items)) => {
            let mut i: usize = 0;
            while i < items.len()
                invariant
                    i <= items@.len(),
                    json_get(*result, "tools"@) == Some(Json::Array(*items)),
                    forall|k: int| 0 <= k < i ==> field_text(#[trigger] items@[k], "name"@) != Some("search_markets"@),
                decreases items.len() - i,
            {
                match items[i].text_field("name") {
                    Some(name) => if str_eq(name, "search_markets") {
                        return true;
                    },
                    None => {},
                }
                i = i + 1;
            }
            false
        },
        _ => false,
    }
}

/// The initialize result names a protocol version that is not blank.
pub open spec fn names_protocol(result: Json) -> bool {
    field_text(result, "protocolVersion"@) matches Some(v) && !is_blank(v)
}

/// Reads Polymarket markets through an MCP server: the markets found for
/// each configured search term, priced, with the change of each
/// probability since it was last seen.
pub struct PolymarketMcpReader<T> {
    transport: T,
    book: PricingBook,
}

impl<T> PolymarketMcpReader<T> {
    pub closed spec fn spec_config(&self) -> PolymarketConfigView {
        self.book.spec_config()
    }

    pub closed spec fn spec_history(&self) -> ProbabilityHistory {
        self.book.spec_history()
    }
}

/// How reading a market found for `instrument` at time `t` answers, and
/// what it leaves in the history: the market is priced from the strings it
/// lists for its outcomes, prices and tokens; a priced market's probability
/// is appended to its key's history, and anything else leaves the history
/// as it was.
pub open spec fn market_read(
    market: Json,
    instrument: Instrument,
    t: Timestamp,
    before: ProbabilityHistory,
    after: ProbabilityHistory,
    r: Result<Option<IntelligenceEvidence>, PolymarketMcpError>,
) -> bool {
    &&& mcp_pricing(
        market,
        listed_strings(json_get(market, "outcomes"@))->0,
        listed_strings(json_get(market, "outcomePrices"@))->0,
        listed_strings(json_get(market, "clobTokenIds"@))->0,
        instrument,
        t,
        |k: Seq<char>| before.spec_kept(k),
        r,
    )
    &&& !(r matches Ok(Some(_))) ==> after == before
    &&& r matches Ok(Some(e)) ==> {
        let key = e.source_event_id@;
        &&& after.spec_kept(key) == last_n(
            before.spec_kept(key).push(ProbabilityObservation { observed_at: t, probability: match e.payload {
                crate::intelligence::evidence::EvidencePayload::PredictionMarket(pm) => pm.implied_probability,
                _ => arbitrary(),
            } }),
            before.spec_capacity(),
        )
        &&& forall|m: Seq<char>| m != key ==> #[trigger] after.spec_kept(m) == before.spec_kept(m)
    }
}

/// Which failure a Polymarket error counts as for its source.
pub open spec fn polymarket_failure(e: SourceError, cause: PolymarketMcpError) -> bool {
    &&& e.spec_source() == IntelligenceSource::Polymarket
    &&& e.spec_category() == super::polymarket::mcp_category(cause)
}

impl<T: McpTransport> PolymarketMcpReader<T> {
    /// Checks the configuration, then opens the session: `initialize` must
    /// name a protocol version and `tools/list` must offer
    /// `search_markets`. A configuration that breaks a rule is refused
    /// before the transport is used.
    pub fn from_transport(transport: T, config: PolymarketConfig) -> (r: Result<PolymarketMcpReader<T>, PolymarketMcpError>)
        requires
            config.keyed(),
        ensures
            super::polymarket::polymarket_config_fault(
                config@.executable,
                config@.gamma_api_url,
                config@.clob_api_url,
                config@.request_timeout,
                config@.history_capacity,
                config@.max_markets_per_term,
                config@.search_terms,
            ) matches Some(m) ==> r matches Err(PolymarketMcpError::InvalidConfig(x)) && x@ == m,
            r matches Ok(reader) ==> reader.spec_config() == config@ && forall|k: Seq<char>| #[trigger] reader.spec_history().spec_kept(k).len() == 0,
    {
        config.validate()?;
        if !transport.is_alive() {
            return Err(PolymarketMcpError::Transport(McpError::ProcessExited));
        }
        let timeout = config.request_timeout();
        let initialize = match transport.request("initialize", initialize_params(), timeout) {
            Ok(v) => v,
            Err(e) => {
                return Err(PolymarketMcpError::Transport(e));
            },
        };
        let initialize = rpc_result(initialize)?;
        let named = match initialize.text_field("protocolVersion") {
            Some(v) => !str_is_blank(v),
            None => false,
        };
        if !named {
            return Err(PolymarketMcpError::Protocol(String::from_str("initialize.protocolVersion is missing")));
        }
        let tools = match transport.request("tools/list", Json::empty_object(), timeout) {
            Ok(v) => v,
            Err(e) => {
                return Err(PolymarketMcpError::Transport(e));
            },
        };
        let tools = rpc_result(tools)?;
        if !has_search_tool(&tools) {
            return Err(PolymarketMcpError::Protocol(String::from_str("required search_markets tool is missing")));
        }
        match transport.notify("notifications/initialized", Json::empty_object()) {
            Ok(()) => {},
            Err(e) => {
                return Err(PolymarketMcpError::Transport(e));
            },
        }
        let book = match PricingBook::new(config) {
            Ok(b) => b,
            Err(e) => {
                return Err(PolymarketMcpError::Intelligence(e));
            },
        };
        Ok(PolymarketMcpReader { transport, book })
    }

    pub fn is_alive(&self) -> bool {
        self.transport.is_alive()
    }

    pub fn shutdown(&self) -> Result<(), McpError> {
        self.transport.shutdown()
    }

    /// Reads a market found for the instrument, at the clock's time.
    fn market_to_evidence(&mut self, market: &Json, instrument: &Instrument) -> (r: Result<Option<IntelligenceEvidence>, PolymarketMcpError>)
        ensures
            r matches Ok(Some(e)) ==> e.source == IntelligenceSource::Polymarket && e.affected_assets@.len() == 1
                && e.affected_assets@[0].instrument == *instrument,
            final(self).spec_config() == old(self).spec_config(),
            exists|t: Timestamp| #[trigger] market_read(*market, *instrument, t, old(self).spec_history(), final(self).spec_history(), r),
    {
        let outcomes = string_array(market.get("outcomes"));
        let prices = string_array(market.get("outcomePrices"));
        let token_ids = string_array(market.get("clobTokenIds"));
        let observed_at = now_utc();
        let mut history = self.book.fresh_history();
        self.book.swap_history(&mut history);
        let r = price_listing(&mut history, market, instrument, &outcomes, &prices, &token_ids, observed_at);
        self.book.swap_history(&mut history);
        assert(market_read(*market, *instrument, observed_at, old(self).spec_history(), self.spec_history(), r));
        r
    }

    /// Searches each configured term of each wanted instrument and reads
    /// the markets found, at most `max_results` records, one per source
    /// event and instrument.
    fn collect_inner(&mut self, query: &BoundedEvidenceQuery) -> (r: Result<Vec<IntelligenceEvidence>, PolymarketMcpError>)
        ensures
            final(self).spec_config() == old(self).spec_config(),
            r matches Ok(v) ==> collected_ok(v@, *query),
    {
        let mut seen: Vec<(String, String)> = Vec::new();
        let mut evidence: Vec<IntelligenceEvidence> = Vec::new();
        let count = self.book.config().search_terms().len();
        let ghost cfg = self.book.spec_config();
        let mut i: usize = 0;
        while i < count
            invariant
                i <= count,
                count == self.book.spec_config().search_terms.len(),
                self.book.spec_config() == cfg,
                cfg == old(self).spec_config(),
                collected_ok(evidence@, *query),
                seen_matches(seen@, evidence@),
            decreases count - i,
        {
            let instrument = self.book.config().search_terms()[i].0.clone();
            let terms = crate::intelligence::evidence::clone_strings(&self.book.config().search_terms()[i].1);
            if query.instruments().len() > 0 && !query.holds_symbol(&instrument) {
                i = i + 1;
                continue;
            }
            let max_markets = self.book.config().max_markets_per_term();
            let per_source = query.max_per_source();
            let limit = if max_markets <= per_source { max_markets } else { per_source };
            let timeout = self.book.config().request_timeout();
            let mut j: usize = 0;
            while j < terms.len()
                invariant
                    j <= terms@.len(),
                    self.book.spec_config() == cfg,
                    cfg == old(self).spec_config(),
                    collected_ok(evidence@, *query),
                    seen_matches(seen@, evidence@),
                    query.spec_instruments().len() == 0 || query.spec_instruments().contains(instrument@),
                decreases terms.len() - j,
            {
                let params = search_params(terms[j].as_str(), limit as u64);
                let response = match self.transport.request("tools/call", params, timeout) {
                    Ok(v) => v,
                    Err(e) => {
                        return Err(PolymarketMcpError::Transport(e));
                    },
                };
                let payload = tool_payload(response)?;
                let markets = match payload.get("markets") {
                    Some(Json::Array(items)) => items,
                    _ => {
                        return Err(PolymarketMcpError::InvalidData(String::from_str("search_markets response is missing markets")));
                    },
                };
                let mut k: usize = 0;
                while k < markets.len()
                    invariant
                        k <= markets@.len(),
                        self.book.spec_config() == cfg,
                        cfg == old(self).spec_config(),
                        collected_ok(evidence@, *query),
                        seen_matches(seen@, evidence@),
                        query.spec_instruments().len() == 0 || query.spec_instruments().contains(instrument@),
                    decreases markets.len() - k,
                {
                    if evidence.len() >= query.max_results() {
                        break;
                    }
                    match self.market_to_evidence(&markets[k], &instrument)? {
                        Some(item) => {
                            let event = String::from_str(item.source_event_id.as_str());
                            let symbol = instrument.to_symbol_string();
                            if !seen_contains(&seen, event.as_str(), symbol.as_str()) {
                                seen.push((event, symbol));
                                evidence.push(item);
                                proof {
                                    let n = evidence@.len() - 1;
                                    assert forall|a: int, b: int| 0 <= a < b < evidence@.len() implies !(
                                        #[trigger] evidence@[a].source_event_id@ == #[trigger] evidence@[b].source_event_id@
                                        && evidence@[a].affected_assets@[0].instrument@ == evidence@[b].affected_assets@[0].instrument@) by {
                                        if b == n {
                                            assert(seen@[a].0@ == evidence@[a].source_event_id@);
                                        }
                                    }
                                }
                            }
                        },
                        None => {},
                    }
                    k = k + 1;
                }
                j = j + 1;
            }
            i = i + 1;
        }
        Ok(evidence)
    }
}

/// Every record is a Polymarket record about one instrument the query
/// wants, there are at most `max_results` of them, and no two share both
/// source event and instrument.
pub open spec fn collected_ok(v: Seq<IntelligenceEvidence>, query: BoundedEvidenceQuery) -> bool {
    &&& v.len() <= query.spec_max_results()
    &&& forall|i: int| 0 <= i < v.len() ==> {
        &&& (#[trigger] v[i]).source == IntelligenceSource::Polymarket
        &&& v[i].affected_assets@.len() == 1
        &&& (query.spec_instruments().len() == 0 || query.spec_instruments().contains(v[i].affected_assets@[0].instrument@))
    }
    &&& forall|a: int, b: int| 0 <= a < b < v.len() ==> !(#[trigger] v[a].source_event_id@ == #[trigger] v[b].source_event_id@
        && v[a].affected_assets@[0].instrument@ == v[b].affected_assets@[0].instrument@)
}

/// The pairs seen are those of the records kept, in order.
pub open spec fn seen_matches(seen: Seq<(String, String)>, v: Seq<IntelligenceEvidence>) -> bool {
    &&& seen.len() == v.len()
    &&& forall|i: int| 0 <= i < v.len() ==> (#[trigger] seen[i]).0@ == v[i].source_event_id@ && seen[i].1@
        == v[i].affected_assets@[0].instrument@
}

fn seen_contains(seen: &Vec<(String, String)>, event: &str, symbol: &str) -> (b: bool)
    ensures
        b == exists|i: int| 0 <= i < seen@.len() && (#[trigger] seen@[i]).0@ == event@ && seen@[i].1@ == symbol@,
{
    let mut i: usize = 0;
    while i < seen.len()
        invariant
            i <= seen@.len(),
            forall|k: int| 0 <= k < i ==> !((#[trigger] seen@[k]).0@ == event@ && seen@[k].1@ == symbol@),
        decreases seen.len() - i,
    {
        if str_eq(seen[i].0.as_str(), event) && str_eq(seen[i].1.as_str(), symbol) {
            return true;
        }
        i = i + 1;
    }
    false
}

impl<T: McpTransport + SpawnTransport> PolymarketMcpReader<T> {
    /// Starts the configured MCP server and opens the session.
    pub fn launch(config: PolymarketConfig) -> (r: Result<PolymarketMcpReader<T>, PolymarketMcpError>)
        requires
            config.keyed(),
        ensures
            super::polymarket::polymarket_config_fault(
                config@.executable,
                config@.gamma_api_url,
                config@.clob_api_url,
                config@.request_timeout,
                config@.history_capacity,
                config@.max_markets_per_term,
                config@.search_terms,
            ) matches Some(m) ==> r matches Err(PolymarketMcpError::InvalidConfig(x)) && x@ == m,
            r matches Ok(reader) ==> reader.spec_config() == config@,
    {
        config.validate()?;
        let transport = match T::spawn(config.executable(), &Vec::new()) {
            Ok(t) => t,
            Err(e) => {
                return Err(PolymarketMcpError::Transport(e));
            },
        };
        Self::from_transport(transport, config)
    }
}

impl<T: McpTransport> PolymarketReader for PolymarketMcpReader<T> {
    fn collect_polymarket(&mut self, query: &BoundedEvidenceQuery) -> (r: Result<Vec<IntelligenceEvidence>, SourceError>)
        ensures
            r matches Ok(v) ==> collected_ok(v@, *query),
            r matches Err(e) ==> e.spec_source() == IntelligenceSource::Polymarket,
    {
        match self.collect_inner(query) {
            Ok(v) => Ok(v),
            Err(error) => Err(SourceError::new(IntelligenceSource::Polymarket, error.source_category())),
        }
    }
}

} // verus!
