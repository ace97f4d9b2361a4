//! The Polymarket REST reader: searches markets on the public Gamma API and
//! prices their `yes` tokens by the CLOB midpoints and spreads.

use vstd::prelude::*;

use super::polymarket::{
    last_n, mcp_error_text, polymarket_config_fault, record_result, PolymarketConfig, PolymarketConfigView, PolymarketMcpError,
    PolymarketRestError, ProbabilityHistory, ProbabilityObservation,
};
use super::polymarket_markets::{
    PricingBook,
    build_market_evidence, collect_market_values, delta_of, derefs, hundredths, listing_fields, market_evidence,
    market_reference, market_values, metric_for_token, metric_text, non_empty_string, opt_view, optional_metric,
    outcome_index, outcome_key, parse_optional_decimal, reference_for, string_array, yes_index_from, join_url,
};
use super::polymarket_readers::PolymarketReader;
use super::SourceError;
use crate::atk::json::{json_get, text_of, Json};
use crate::dec::{decimal_parse, decimal_text, one_units, parse_decimal, units, Dec, DecView};
use crate::domain::instrument::Instrument;
use crate::intelligence::evidence::{IntelligenceEvidence, IntelligenceSource, Probability};
use crate::intelligence::query::BoundedEvidenceQuery;
use crate::intelligence::{intelligence_error_text, IntelligenceError};
use crate::text::{concat, str_eq, texts, trim_text, trimmed, u64_text};
use crate::timestamp::{now_utc, Timestamp};

verus! {

/// The public Gamma and CLOB REST APIs, read only.
pub trait PolymarketRestTransport {
    /// A GET of the address with the query parameters, answered with JSON.
    fn get_json(&mut self, url: &str, query: &Vec<(String, String)>) -> Result<Json, PolymarketRestError>;

    /// A POST of the JSON body to the address, answered with JSON.
    fn post_json(&mut self, url: &str, body: Json) -> Result<Json, PolymarketRestError>;
}

/// The longest error body kept, in bytes.
pub const MAX_ERROR_BODY_BYTES: usize = 512;

/// An error body as reported: whole where it is at most 512 bytes long,
/// else its first 512 characters and `...`.
pub open spec fn shortened_body(body: Seq<char>) -> Seq<char> {
    if crate::text::utf8_len(body) <= 512 {
        body
    } else {
        body.take(if body.len() < 512 { body.len() as int } else { 512 }) + "..."@
    }
}

pub fn truncate_error_body(body: &str) -> (r: String)
    ensures
        r@ == shortened_body(body@),
{
    if !crate::text::utf8_len_exceeds(body, MAX_ERROR_BODY_BYTES) {
        return String::from_str(body);
    }
    let n = body.unicode_len();
    let end: usize = if n < 512 { n } else { 512 };
    let mut out = String::new();
    let mut i: usize = 0;
    while i < end
        invariant
            i <= end <= body@.len(),
            out@ == body@.take(i as int),
        decreases end - i,
    {
        crate::text::string_push(&mut out, body.get_char(i));
        proof {
            assert(out@ =~= body@.take(i + 1));
        }
        i = i + 1;
    }
    out.append("...");
    out
}

/// A market found for an instrument, with what pricing it needs.
pub struct RestMarketCandidate {
    pub market_id: String,
    pub question: String,
    pub token_id: String,
    pub instrument: Instrument,
    pub reference: String,
    pub liquidity: Option<Dec>,
    pub volume: Option<Dec>,
}

/// The identifier, question and `yes` token of an open, unarchived market,
/// where the listing names them.
pub open spec fn rest_listing(m: Json, outcomes: Seq<Seq<char>>, tokens: Seq<Seq<char>>) -> Option<(Seq<char>, Seq<char>, Seq<char>)> {
    match listing_fields(m, true) {
        None => None,
        Some((id, question)) => if tokens.len() == 0 {
            None
        } else {
            let k = yes_index_from(outcomes, 0);
            if k < tokens.len() && tokens[k].len() > 0 {
                Some((id, question, tokens[k]))
            } else {
                None
            }
        },
    }
}

/// The candidate a market listing makes for the instrument.
pub open spec fn candidate_of(c: RestMarketCandidate, m: Json, instrument: Instrument, id: Seq<char>, question: Seq<char>, token: Seq<char>) -> bool {
    &&& c.market_id@ == id
    &&& c.question@ == question
    &&& c.token_id@ == token
    &&& c.instrument == instrument
    &&& c.reference@ == market_reference(m, id)
    &&& opt_view(c.liquidity) == optional_metric(json_get(m, "liquidity"@))
    &&& opt_view(c.volume) == optional_metric(json_get(m, "volume"@))
}

/// The candidate a listed market makes, given its outcomes and tokens.
pub fn market_candidate(market: &Json, instrument: &Instrument, outcomes: &Vec<String>, token_ids: &Vec<String>) -> (r: Option<RestMarketCandidate>)
    ensures
        match rest_listing(*market, texts(outcomes@), texts(token_ids@)) {
            None => r is None,
            Some((id, question, token)) => r matches Some(c) && candidate_of(c, *market, *instrument, id, question, token),
        },
{
    if market.bool_field("active") == Some(false) || market.bool_field("closed") == Some(true) || market.bool_field(
        "archived",
    ) == Some(true) {
        return None;
    }
    let market_id = match non_empty_string(market.get("id")) {
        Some(s) => s,
        None => {
            return None;
        },
    };
    let question = match non_empty_string(market.get("question")) {
        Some(s) => s,
        None => {
            return None;
        },
    };
    if token_ids.len() == 0 {
        return None;
    }
    let k = outcome_index(outcomes);
    if k >= token_ids.len() || token_ids[k].as_str().unicode_len() == 0 {
        return None;
    }
    let reference = reference_for(market, market_id.as_str());
    Some(RestMarketCandidate {
        market_id,
        question,
        token_id: token_ids[k].clone(),
        instrument: instrument.clone(),
        reference,
        liquidity: parse_optional_decimal(market.get("liquidity")),
        volume: parse_optional_decimal(market.get("volume")),
    })
}

/// The spread the CLOB reports for the token, where it reports a readable
/// one.
pub open spec fn spread_of(spreads: Json, token: Seq<char>) -> Option<DecView> {
    match metric_text(spreads, token) {
        Some(t) => decimal_parse(trimmed(t)),
        None => None,
    }
}

/// How a candidate is priced from the CLOB answers at time `t`: nothing
/// without a midpoint; a refusal of a midpoint that is not a decimal or
/// not a probability, of an unreadable spread, or of the history's
/// refusal; else the evidence record.
pub open spec fn rest_pricing(
    c: RestMarketCandidate,
    midpoint: Json,
    spreads: Json,
    t: Timestamp,
    prev: Seq<ProbabilityObservation>,
    r: Result<Option<IntelligenceEvidence>, PolymarketRestError>,
) -> bool {
    let key = outcome_key(c.market_id@, c.token_id@);
    match metric_text(midpoint, c.token_id@) {
        None => r matches Ok(None),
        Some(mt) => match decimal_parse(trimmed(mt)) {
            None => r matches Err(PolymarketRestError::InvalidData(msg)) && msg@
                == "invalid Polymarket MCP data: CLOB midpoint is not a decimal: "@ + mt,
            Some(p) => if !(0 <= units(p) <= one_units()) {
                r matches Err(PolymarketRestError::InvalidData(msg)) && msg@ == "probability must be between zero and one: "@
                    + decimal_text(p)
            } else {
                match r {
                    Ok(Some(e)) => {
                        &&& record_result(prev, key, t, p, Ok(delta_of(e)))
                        &&& (metric_text(spreads, c.token_id@) is Some ==> spread_of(spreads, c.token_id@) is Some)
                        &&& market_evidence(
                            e,
                            c.market_id@,
                            c.token_id@,
                            c.question@,
                            c.instrument,
                            p,
                            t,
                            (65int, 2nat),
                            "Polymarket CLOB midpoint for "@,
                            c.reference@,
                            opt_view(c.liquidity),
                            opt_view(c.volume),
                            spread_of(spreads, c.token_id@),
                        )
                    },
                    Err(PolymarketRestError::InvalidData(msg)) => {
                        ||| exists|x: IntelligenceError| record_result(prev, key, t, p, Err(x)) && msg@ == intelligence_error_text(x)
                        ||| (metric_text(spreads, c.token_id@) matches Some(st) && decimal_parse(trimmed(st)) is None
                            && msg@ == "invalid Polymarket MCP data: CLOB spread is not a decimal: "@ + st)
                    },
                    _ => false,
                }
            },
        },
    }
}

/// The history after a probability with value `p` was appended to the
/// history of `key` at time `t`, every other key's history left alone.
pub open spec fn appended(before: ProbabilityHistory, after: ProbabilityHistory, key: Seq<char>, t: Timestamp, p: DecView) -> bool {
    &&& exists|q: Probability|
        q.spec_value()@ == p && #[trigger] after.spec_kept(key) == last_n(
            before.spec_kept(key).push(ProbabilityObservation { observed_at: t, probability: q }),
            before.spec_capacity(),
        )
    &&& forall|m: Seq<char>| m != key ==> #[trigger] after.spec_kept(m) == before.spec_kept(m)
}

/// What pricing a candidate leaves in the history: a priced candidate's
/// probability appended to its outcome's history; a refusal leaves the
/// history as it was, but for a spread that is not a decimal, which comes
/// after the probability was recorded.
pub open spec fn candidate_history(
    c: RestMarketCandidate,
    midpoint: Json,
    t: Timestamp,
    before: ProbabilityHistory,
    after: ProbabilityHistory,
    r: Result<Option<IntelligenceEvidence>, PolymarketRestError>,
) -> bool {
    let key = outcome_key(c.market_id@, c.token_id@);
    let p = decimal_parse(trimmed(metric_text(midpoint, c.token_id@)->0))->0;
    match r {
        Ok(None) => after == before,
        Ok(Some(_)) => appended(before, after, key, t, p),
        Err(_) => after == before || appended(before, after, key, t, p),
    }
}

/// How a candidate priced at time `t` answers, and what it leaves in the
/// history.
pub open spec fn candidate_read(
    c: RestMarketCandidate,
    midpoint: Json,
    spreads: Json,
    t: Timestamp,
    before: ProbabilityHistory,
    after: ProbabilityHistory,
    r: Result<Option<IntelligenceEvidence>, PolymarketRestError>,
) -> bool {
    &&& rest_pricing(c, midpoint, spreads, t, before.spec_kept(outcome_key(c.market_id@, c.token_id@)), r)
    &&& candidate_history(c, midpoint, t, before, after, r)
}

/// Prices a candidate from the CLOB answers, observed at `observed_at`,
/// recording its probability in the history.
pub fn price_candidate(
    history: &mut ProbabilityHistory,
    candidate: &RestMarketCandidate,
    midpoint: &Json,
    spreads: &Json,
    observed_at: Timestamp,
) -> (r: Result<Option<IntelligenceEvidence>, PolymarketRestError>)
    requires
        old(history).wf(),
        !crate::text::is_blank(candidate.question@),
        !crate::text::is_blank(candidate.reference@),
    ensures
        final(history).wf(),
        final(history).spec_capacity() == old(history).spec_capacity(),
        rest_pricing(
            *candidate,
            *midpoint,
            *spreads,
            observed_at,
            old(history).spec_kept(outcome_key(candidate.market_id@, candidate.token_id@)),
            r,
        ),
        candidate_history(*candidate, *midpoint, observed_at, *old(history), *final(history), r),
{
    let mid = match metric_for_token(midpoint, candidate.token_id.as_str()) {
        Some(m) => m,
        None => {
            return Ok(None);
        },
    };
    let trimmed_mid = trim_text(mid.as_str());
    let value = match parse_decimal(trimmed_mid.as_str()) {
        Some(d) => d,
        None => {
            return Err(PolymarketRestError::InvalidData(concat("invalid Polymarket MCP data: CLOB midpoint is not a decimal: ", mid.as_str())));
        },
    };
    let probability = match Probability::new(value) {
        Ok(p) => p,
        Err(e) => {
            proof {
                reveal_strlit("probability");
                reveal_strlit(" must be between zero and one: ");
                reveal_strlit("probability must be between zero and one: ");
                assert("probability"@ + " must be between zero and one: "@ =~= "probability must be between zero and one: "@);
            }
            return Err(PolymarketRestError::InvalidData(e.message()));
        },
    };
    let spread_text = metric_for_token(spreads, candidate.token_id.as_str());
    let spread = match &spread_text {
        Some(s) => {
            let t = trim_text(s.as_str());
            match parse_decimal(t.as_str()) {
                Some(d) => Some(d),
                None => {
                    let key_head = concat(candidate.market_id.as_str(), ":");
                    let key = concat(key_head.as_str(), candidate.token_id.as_str());
                    proof {
                        reveal_strlit(":");
                        assert(key@ == outcome_key(candidate.market_id@, candidate.token_id@));
                    }
                    match history.record(key.as_str(), observed_at, probability) {
                        Ok(_) => {},
                        Err(e) => {
                            return Err(PolymarketRestError::InvalidData(e.message()));
                        },
                    }
                    return Err(PolymarketRestError::InvalidData(concat("invalid Polymarket MCP data: CLOB spread is not a decimal: ", s.as_str())));
                },
            }
        },
        None => None,
    };
    match build_market_evidence(
        history,
        &candidate.market_id,
        &candidate.token_id,
        &candidate.question,
        &candidate.instrument,
        probability,
        observed_at,
        hundredths(65),
        "Polymarket CLOB midpoint for ",
        candidate.reference.clone(),
        candidate.liquidity,
        candidate.volume,
        spread,
    ) {
        Ok(e) => Ok(Some(e)),
        Err(x) => Err(PolymarketRestError::InvalidData(x.message())),
    }
}

fn pair(key: &str, value: &str) -> (p: (String, String))
    ensures
        p.0@ == key@,
        p.1@ == value@,
{
    (String::from_str(key), String::from_str(value))
}

/// The query of a Gamma public search for a term, by key order: open
/// markets only, at most `limit` per type, no profiles, no tags.
pub open spec fn search_query(term: Seq<char>, limit: nat) -> Seq<(Seq<char>, Seq<char>)> {
    seq![
        ("keep_closed_markets"@, "0"@),
        ("limit_per_type"@, crate::text::decimal_digits(limit)),
        ("q"@, term),
        ("search_profiles"@, "false"@),
        ("search_tags"@, "false"@),
    ]
}

pub open spec fn pairs_view(v: Seq<(String, String)>) -> Seq<(Seq<char>, Seq<char>)> {
    Seq::new(v.len(), |i: int| (v[i].0@, v[i].1@))
}

pub fn search_pairs(term: &str, limit: u64) -> (v: Vec<(String, String)>)
    ensures
        pairs_view(v@) == search_query(term@, limit as nat),
{
    let mut v: Vec<(String, String)> = Vec::new();
    v.push(pair("keep_closed_markets", "0"));
    let digits = u64_text(limit);
    v.push(pair("limit_per_type", digits.as_str()));
    v.push(pair("q", term));
    v.push(pair("search_profiles", "false"));
    v.push(pair("search_tags", "false"));
    proof {
        assert(pairs_view(v@) =~= search_query(term@, limit as nat));
    }
    v
}

/// `[{"token_id": token}, ...]` for the candidates' tokens.
pub fn token_requests(candidates: &Vec<RestMarketCandidate>) -> (v: Json)
    ensures
        v matches Json::Array(items) && items@.len() == candidates@.len() && forall|i: int| 0 <= i < items@.len() ==> crate::atk::json::field_text(
            #[trigger] items@[i],
            "token_id"@,
        ) == Some(candidates@[i].token_id@),
{
    let mut items: Vec<Json> = Vec::new();
    let mut i: usize = 0;
    while i < candidates.len()
        invariant
            i <= candidates@.len(),
            items@.len() == i,
            forall|k: int| 0 <= k < i ==> crate::atk::json::field_text(#[trigger] items@[k], "token_id"@) == Some(candidates@[k].token_id@),
        decreases candidates.len() - i,
    {
        let mut entry: Vec<(String, Json)> = Vec::new();
        entry.push((String::from_str("token_id"), Json::Text(candidates[i].token_id.clone())));
        let item = Json::Object(entry);
        proof {
            reveal_strlit("token_id");
            assert(crate::atk::json::lookup_from(entry@, "token_id"@, 0) == Some(entry@[0].1));
        }
        items.push(item);
        i = i + 1;
    }
    Json::Array(items)
}

/// Reads Polymarket markets through the public REST APIs.
pub struct PolymarketRestReader<T> {
    transport: T,
    book: PricingBook,
}

impl<T> PolymarketRestReader<T> {
    pub closed spec fn spec_config(&self) -> PolymarketConfigView {
        self.book.spec_config()
    }

    pub closed spec fn spec_history(&self) -> ProbabilityHistory {
        self.book.spec_history()
    }
}

/// Every record is a Polymarket record about one instrument the query
/// wants, and, where the query caps results, there are at most that many.
pub open spec fn rest_collected_ok(v: Seq<IntelligenceEvidence>, query: BoundedEvidenceQuery) -> bool {
    &&& query.spec_max_results() > 0 ==> v.len() <= query.spec_max_results()
    &&& forall|i: int| 0 <= i < v.len() ==> {
        &&& (#[trigger] v[i]).source == IntelligenceSource::Polymarket
        &&& v[i].affected_assets@.len() == 1
        &&& (query.spec_instruments().len() == 0 || query.spec_instruments().contains(v[i].affected_assets@[0].instrument@))
    }
}

/// The candidates are about instruments the query wants, with usable
/// questions and references, one per market and instrument.
pub open spec fn candidates_ok(v: Seq<RestMarketCandidate>, query: BoundedEvidenceQuery) -> bool {
    &&& forall|i: int| 0 <= i < v.len() ==> {
        &&& !crate::text::is_blank((#[trigger] v[i]).question@)
        &&& !crate::text::is_blank(v[i].reference@)
        &&& (query.spec_instruments().len() == 0 || query.spec_instruments().contains(v[i].instrument@))
    }
    &&& forall|a: int, b: int| 0 <= a < b < v.len() ==> !(#[trigger] v[a].market_id@ == #[trigger] v[b].market_id@
        && v[a].instrument@ == v[b].instrument@)
}

proof fn lemma_candidate_clean(c: RestMarketCandidate, m: Json, instrument: Instrument, id: Seq<char>, question: Seq<char>, token: Seq<char>)
    requires
        candidate_of(c, m, instrument, id, question, token),
        listing_fields(m, true) == Some((id, question)),
    ensures
        !crate::text::is_blank(c.question@),
        !crate::text::is_blank(c.reference@),
{
    crate::text::lemma_blank_trimmed(text_of(json_get(m, "question"@)).unwrap());
    crate::text::lemma_trimmed_idempotent(text_of(json_get(m, "question"@)).unwrap());
    crate::text::lemma_blank_trimmed(question);
    reveal_strlit("https://polymarket.com/event/");
    reveal_strlit("polymarket://market/");
    assert(!crate::text::is_ws(c.reference@[0]));
}

impl<T: PolymarketRestTransport> PolymarketRestReader<T> {
    /// Refuses a configuration that breaks a rule, with the configuration
    /// error's message.
    pub fn from_transport(transport: T, config: PolymarketConfig) -> (r: Result<PolymarketRestReader<T>, PolymarketRestError>)
        requires
            config.keyed(),
        ensures
            match polymarket_config_fault(
                config@.executable,
                config@.gamma_api_url,
                config@.clob_api_url,
                config@.request_timeout,
                config@.history_capacity,
                config@.max_markets_per_term,
                config@.search_terms,
            ) {
                Some(m) => r matches Err(PolymarketRestError::InvalidData(x)) && x@ == "invalid Polymarket MCP configuration: "@ + m,
                None => r matches Ok(reader) && reader.spec_config() == config@ && forall|k: Seq<char>| #[trigger] reader.spec_history().spec_kept(k).len() == 0,
            },
    {
        match config.validate() {
            Ok(()) => {},
            Err(e) => {
                return Err(PolymarketRestError::InvalidData(e.message()));
            },
        }
        let book = match PricingBook::new(config) {
            Ok(b) => b,
            Err(e) => {
                return Err(PolymarketRestError::InvalidData(e.message()));
            },
        };
        Ok(PolymarketRestReader { transport, book })
    }

    /// Prices a candidate at the clock's time.
    fn candidate_to_evidence(&mut self, candidate: &RestMarketCandidate, midpoint: &Json, spreads: &Json) -> (r: Result<Option<IntelligenceEvidence>, PolymarketRestError>)
        requires
            !crate::text::is_blank(candidate.question@),
            !crate::text::is_blank(candidate.reference@),
        ensures
            final(self).spec_config() == old(self).spec_config(),
            r matches Ok(Some(e)) ==> e.source == IntelligenceSource::Polymarket && e.affected_assets@.len() == 1
                && e.affected_assets@[0].instrument == candidate.instrument,
            exists|t: Timestamp| #[trigger] candidate_read(*candidate, *midpoint, *spreads, t, old(self).spec_history(), final(self).spec_history(), r),
    {
        let observed_at = now_utc();
        let mut history = self.book.fresh_history();
        self.book.swap_history(&mut history);
        let r = price_candidate(&mut history, candidate, midpoint, spreads, observed_at);
        self.book.swap_history(&mut history);
        assert(candidate_read(*candidate, *midpoint, *spreads, observed_at, old(self).spec_history(), self.spec_history(), r));
        r
    }

    /// Collects candidates for each configured term of each wanted
    /// instrument, up to `max_results`, then prices them by the CLOB
    /// midpoints and spreads of their tokens.
    fn collect_inner(&mut self, query: &BoundedEvidenceQuery) -> (r: Result<Vec<IntelligenceEvidence>, PolymarketRestError>)
        ensures
            final(self).spec_config() == old(self).spec_config(),
            r matches Ok(v) ==> rest_collected_ok(v@, *query),
    {
        let mut candidates: Vec<RestMarketCandidate> = Vec::new();
        let count = self.book.config().search_terms().len();
        let ghost cfg = self.book.spec_config();
        let max_results = query.max_results();
        let mut i: usize = 0;
        while i < count
            invariant
                i <= count,
                count == self.book.spec_config().search_terms.len(),
                self.book.spec_config() == cfg,
                cfg == old(self).spec_config(),
                max_results == query.spec_max_results(),
                candidates_ok(candidates@, *query),
                max_results > 0 ==> candidates@.len() <= max_results,
            decreases count - i,
        {
            let instrument = self.book.config().search_terms()[i].0.clone();
            let terms = crate::intelligence::evidence::clone_strings(&self.book.config().search_terms()[i].1);
            if query.instruments().len() > 0 && !query.holds_symbol(&instrument) {
                i = i + 1;
                continue;
            }
            let max_markets = self.book.config().max_markets_per_term();
            let per_source = query.max_per_source();
            let limit = if max_markets <= per_source { max_markets } else { per_source };
            let url = join_url(self.book.config().gamma_api_url(), "public-search");
            let mut j: usize = 0;
            while j < terms.len()
                invariant
                    j <= terms@.len(),
                    self.book.spec_config() == cfg,
                    cfg == old(self).spec_config(),
                    max_results == query.spec_max_results(),
                    candidates_ok(candidates@, *query),
                    max_results > 0 ==> candidates@.len() <= max_results,
                    query.spec_instruments().len() == 0 || query.spec_instruments().contains(instrument@),
                decreases terms.len() - j,
            {
                let pairs = search_pairs(terms[j].as_str(), limit as u64);
                let response = self.transport.get_json(url.as_str(), &pairs)?;
                let mut markets: Vec<&Json> = Vec::new();
                collect_market_values(&response, &mut markets);
                let mut k: usize = 0;
                while k < markets.len()
                    invariant
                        k <= markets@.len(),
                        self.book.spec_config() == cfg,
                        cfg == old(self).spec_config(),
                        max_results == query.spec_max_results(),
                        candidates_ok(candidates@, *query),
                        max_results > 0 ==> candidates@.len() <= max_results,
                        query.spec_instruments().len() == 0 || query.spec_instruments().contains(instrument@),
                    decreases markets.len() - k,
                {
                    let market = markets[k];
                    let outcomes = string_array(market.get("outcomes"));
                    let token_ids = string_array(market.get("clobTokenIds"));
                    match market_candidate(market, &instrument, &outcomes, &token_ids) {
                        Some(candidate) => {
                            proof {
                                let (id, q, tok) = rest_listing(*market, texts(outcomes@), texts(token_ids@)).unwrap();
                                lemma_candidate_clean(candidate, *market, instrument, id, q, tok);
                            }
                            if (candidates.len() < max_results || max_results == 0) && !candidate_seen(
                                &candidates,
                                candidate.market_id.as_str(),
                                &instrument,
                            ) {
                                candidates.push(candidate);
                                proof {
                                    let v = candidates@;
                                    assert forall|a: int, b: int| 0 <= a < b < v.len() implies !(#[trigger] v[a].market_id@
                                        == #[trigger] v[b].market_id@ && v[a].instrument@ == v[b].instrument@) by {
                                        if b == v.len() - 1 {
                                        } else {
                                        }
                                    }
                                }
                            }
                        },
                        None => {},
                    }
                    if candidates.len() >= max_results {
                        break;
                    }
                    k = k + 1;
                }
                if candidates.len() >= max_results {
                    break;
                }
                j = j + 1;
            }
            if candidates.len() >= max_results {
                break;
            }
            i = i + 1;
        }
        if candidates.len() == 0 {
            return Ok(Vec::new());
        }
        let clob = self.book.config().clob_api_url();
        let midpoint_url = join_url(clob, "midpoints");
        let midpoint = self.transport.post_json(midpoint_url.as_str(), token_requests(&candidates))?;
        let spreads_url = join_url(self.book.config().clob_api_url(), "spreads");
        let spreads = self.transport.post_json(spreads_url.as_str(), token_requests(&candidates))?;
        let mut evidence: Vec<IntelligenceEvidence> = Vec::new();
        let mut n: usize = 0;
        while n < candidates.len()
            invariant
                n <= candidates@.len(),
                self.book.spec_config() == cfg,
                cfg == old(self).spec_config(),
                candidates_ok(candidates@, *query),
                evidence@.len() <= n,
                max_results == query.spec_max_results(),
                max_results > 0 ==> candidates@.len() <= max_results,
                forall|i: int| 0 <= i < evidence@.len() ==> {
                    &&& (#[trigger] evidence@[i]).source == IntelligenceSource::Polymarket
                    &&& evidence@[i].affected_assets@.len() == 1
                    &&& (query.spec_instruments().len() == 0 || query.spec_instruments().contains(
                        evidence@[i].affected_assets@[0].instrument@,
                    ))
                },
            decreases candidates.len() - n,
        {
            match self.candidate_to_evidence(&candidates[n], &midpoint, &spreads)? {
                Some(e) => evidence.push(e),
                None => {},
            }
            n = n + 1;
        }
        Ok(evidence)
    }
}

fn candidate_seen(candidates: &Vec<RestMarketCandidate>, market_id: &str, instrument: &Instrument) -> (b: bool)
    ensures
        b == exists|i: int| 0 <= i < candidates@.len() && (#[trigger] candidates@[i]).market_id@ == market_id@
            && candidates@[i].instrument@ == instrument@,
{
    let mut i: usize = 0;
    while i < candidates.len()
        invariant
            i <= candidates@.len(),
            forall|k: int| 0 <= k < i ==> !((#[trigger] candidates@[k]).market_id@ == market_id@ && candidates@[k].instrument@
                == instrument@),
        decreases candidates.len() - i,
    {
        if str_eq(candidates[i].market_id.as_str(), market_id) && candidates[i].instrument.same_as(instrument) {
            return true;
        }
        i = i + 1;
    }
    false
}

impl<T: PolymarketRestTransport> PolymarketReader for PolymarketRestReader<T> {
    fn collect_polymarket(&mut self, query: &BoundedEvidenceQuery) -> (r: Result<Vec<IntelligenceEvidence>, SourceError>)
        ensures
            r matches Ok(v) ==> rest_collected_ok(v@, *query),
            r matches Err(e) ==> e.spec_source() == IntelligenceSource::Polymarket,
    {
        match self.collect_inner(query) {
            Ok(v) => Ok(v),
            Err(error) => Err(SourceError::new(IntelligenceSource::Polymarket, error.source_category())),
        }
    }
}

} // verus!
