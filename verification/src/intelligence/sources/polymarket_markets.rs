//! Reading Polymarket market listings out of JSON answers, and turning a
//! market's probability into an evidence record.

use vstd::prelude::*;

use super::polymarket::{last_n, record_result, PolymarketConfig, PolymarketConfigView, ProbabilityHistory, ProbabilityObservation};
use crate::atk::json::{decode_json, decoded_json, field_bool, field_text, json_get, text_of, Json};
use crate::atk::replies::number_text;
use crate::dec::{abs_view, decimal_parse, decimal_text, lemma_pow10_positive, lemma_pow10_split, one_units, parse_decimal, pow10, units, Dec, MAX_SCALE};
use crate::domain::evidence::SourceEventId;
use crate::domain::instrument::Instrument;
use crate::intelligence::events::{sha256_hex, single_entity_fingerprint, single_entity_key, stable_evidence_id, stable_id_value};
use crate::intelligence::evidence::{
    in_unit, AssetImpact, EvidencePayload, IntelligenceDirection, IntelligenceEvidence, IntelligenceSource,
    PredictionMarketEvidence, Probability, Score, SignedValue, SourceReference,
};
use crate::intelligence::IntelligenceError;
use crate::text::{ascii_lowercase, concat, is_blank, lowered, str_eq, str_is_blank, texts, trim_text, trimmed};
use crate::timestamp::Timestamp;

verus! {

/// The text of a string value, trimmed, where something is left.
pub open spec fn nonblank_trimmed(v: Option<Json>) -> Option<Seq<char>> {
    match text_of(v) {
        Some(t) => if trimmed(t).len() > 0 {
            Some(trimmed(t))
        } else {
            None
        },
        None => None,
    }
}

/// The value of `Option<&Json>` as a plain option.
pub open spec fn opt_json(v: Option<&Json>) -> Option<Json> {
    match v {
        Some(x) => Some(*x),
        None => None,
    }
}

/// `value.as_str().map(str::trim).filter(non-empty)`.
pub fn non_empty_string(value: Option<&Json>) -> (r: Option<String>)
    ensures
        r matches Some(s) ==> nonblank_trimmed(opt_json(value)) == Some(s@),
        r is None ==> nonblank_trimmed(opt_json(value)) is None,
{
    match value {
        Some(v) => match v.as_str() {
            Some(t) => {
                let s = trim_text(t);
                if s.as_str().unicode_len() > 0 {
                    Some(s)
                } else {
                    None
                }
            },
            None => None,
        },
        None => None,
    }
}

/// The non-blank strings of a list, trimmed, in order.
pub open spec fn string_items(items: Seq<Json>) -> Seq<Seq<char>>
    decreases items.len(),
{
    if items.len() == 0 {
        Seq::empty()
    } else {
        let rest = string_items(items.drop_last());
        match nonblank_trimmed(Some(items.last())) {
            Some(t) => rest.push(t),
            None => rest,
        }
    }
}

fn strings_of_items(items: &Vec<Json>) -> (r: Vec<String>)
    ensures
        texts(r@) == string_items(items@),
{
    let mut out: Vec<String> = Vec::new();
    let mut i: usize = 0;
    while i < items.len()
        invariant
            i <= items@.len(),
            texts(out@) == string_items(items@.take(i as int)),
        decreases items.len() - i,
    {
        let ghost before = texts(out@);
        proof {
            assert(items@.take(i + 1).drop_last() =~= items@.take(i as int));
        }
        match non_empty_string(Some(&items[i])) {
            Some(s) => {
                out.push(s);
                proof {
                    assert(texts(out@) =~= before.push(out@.last()@));
                }
            },
            None => {},
        }
        i = i + 1;
    }
    proof {
        assert(items@.take(items@.len() as int) =~= items@);
    }
    out
}

/// The strings a member lists: an array's non-blank strings, or, for a
/// string, those of the array its JSON text holds.
pub open spec fn listed_strings(v: Option<Json>) -> Option<Seq<Seq<char>>> {
    match v {
        Some(Json::Array(items)) => Some(string_items(items@)),
        Some(Json::Text(t)) => match decoded_json(t@) {
            Some(Json::Array(items)) => Some(string_items(items@)),
            _ => Some(Seq::empty()),
        },
        _ => Some(Seq::empty()),
    }
}

/// Every string is trimmed and not empty.
pub open spec fn all_nonblank_trimmed(s: Seq<Seq<char>>) -> bool {
    forall|i: int| 0 <= i < s.len() ==> (#[trigger] s[i]).len() > 0 && trimmed(s[i]) == s[i]
}

proof fn lemma_string_items_clean(items: Seq<Json>)
    ensures
        all_nonblank_trimmed(string_items(items)),
    decreases items.len(),
{
    if items.len() > 0 {
        lemma_string_items_clean(items.drop_last());
        match nonblank_trimmed(Some(items.last())) {
            Some(t) => {
                crate::text::lemma_trimmed_idempotent(text_of(Some(items.last())).unwrap());
            },
            None => {},
        }
    }
}

/// The strings a member lists; for a string member, those of the array its
/// JSON text holds, read by the decoder (nothing where it holds no array).
pub fn string_array(value: Option<&Json>) -> (r: Vec<String>)
    ensures
        Some(texts(r@)) == listed_strings(opt_json(value)),
        all_nonblank_trimmed(texts(r@)),
{
    match value {
        Some(Json::Array(items)) => {
            let r = strings_of_items(items);
            proof {
                lemma_string_items_clean(items@);
            }
            r
        },
        Some(Json::Text(text)) => match decode_json(text.as_str()) {
            Ok(Json::Array(items)) => {
                let r = strings_of_items(&items);
                proof {
                    lemma_string_items_clean(items@);
                }
                r
            },
            _ => Vec::new(),
        },
        _ => Vec::new(),
    }
}

/// The markets in an answer: every object with both an `id` and a
/// `question`, and, inside any object, those under its `markets`, `events`
/// and `data` members; arrays are read item by item.
pub open spec fn market_values(v: Json) -> Seq<Json>
    decreases v,
{
    match v {
        Json::Array(items) => {
            proof {
                assert(decreases_to!(v => items));
                assert(decreases_to!(items => items@));
            }
            market_list(items@)
        },
        Json::Object(entries) => {
            proof {
                assert(decreases_to!(v => entries));
                assert(decreases_to!(entries => entries@));
            }
            let own = if json_get(v, "id"@) is Some && json_get(v, "question"@) is Some {
                seq![v]
            } else {
                Seq::empty()
            };
            own + market_member(entries@, "markets"@) + market_member(entries@, "events"@) + market_member(
                entries@,
                "data"@,
            )
        },
        _ => Seq::empty(),
    }
}

/// The markets of the items of an array, in order.
pub open spec fn market_list(items: Seq<Json>) -> Seq<Json>
    decreases items,
{
    if items.len() == 0 {
        Seq::empty()
    } else {
        proof {
            assert(decreases_to!(items => items.subrange(0, items.len() - 1)));
            assert(decreases_to!(items => items[items.len() - 1]));
        }
        market_list(items.subrange(0, items.len() - 1)) + market_values(items[items.len() - 1])
    }
}

/// The markets under the first member named `key`.
pub open spec fn market_member(entries: Seq<(String, Json)>, key: Seq<char>) -> Seq<Json>
    decreases entries,
{
    if entries.len() == 0 {
        Seq::empty()
    } else {
        proof {
            assert(decreases_to!(entries => entries[0]));
            assert(decreases_to!(entries[0] => entries[0].1));
            assert(decreases_to!(entries => entries.subrange(1, entries.len() as int)));
        }
        if entries[0].0@ == key {
            market_values(entries[0].1)
        } else {
            market_member(entries.subrange(1, entries.len() as int), key)
        }
    }
}

/// The values the references point to.
pub open spec fn derefs(s: Seq<&Json>) -> Seq<Json> {
    Seq::new(s.len(), |i: int| *s[i])
}

/// Gathers the markets an answer holds, in the order of `market_values`.
pub fn collect_market_values<'a>(value: &'a Json, markets: &mut Vec<&'a Json>)
    ensures
        derefs(final(markets)@) == derefs(old(markets)@) + market_values(*value),
    decreases *value,
{
    match value {
        Json::Array(items) => {
            let ghost start = derefs(markets@);
            let mut i: usize = 0;
            while i < items.len()
                invariant
                    i <= items@.len(),
                    *value == Json::Array(*items),
                    derefs(markets@) == start + market_list(items@.take(i as int)),
                decreases items.len() - i,
            {
                proof {
                    assert(decreases_to!(*value => (*value)->Array_0));
                    assert(decreases_to!(*items => items@));
                    assert(decreases_to!(items@ => items@[i as int]));
                    let t = items@.take(i + 1);
                    assert(t.subrange(0, t.len() - 1) =~= items@.take(i as int));
                    assert(t[t.len() - 1] == items@[i as int]);
                }
                collect_market_values(&items[i], markets);
                proof {
                    assert(derefs(markets@) =~= start + market_list(items@.take(i + 1)));
                }
                i = i + 1;
            }
            proof {
                assert(items@.take(items@.len() as int) =~= items@);
            }
        },
        Json::Object(entries) => {
            let ghost start = derefs(markets@);
            if value.get("id").is_some() && value.get("question").is_some() {
                markets.push(value);
            }
            proof {
                assert(decreases_to!(*value => (*value)->Object_0));
            }
            collect_member(entries, "markets", markets);
            collect_member(entries, "events", markets);
            collect_member(entries, "data", markets);
            proof {
                assert(derefs(markets@) =~= start + market_values(*value));
            }
        },
        _ => {
            proof {
                assert(derefs(markets@) =~= derefs(old(markets)@) + market_values(*value));
            }
        },
    }
}

proof fn lemma_member_skip(entries: Seq<(String, Json)>, key: Seq<char>, i: int)
    requires
        0 <= i < entries.len(),
        entries[i].0@ != key,
    ensures
        market_member(entries.subrange(i, entries.len() as int), key) == market_member(
            entries.subrange(i + 1, entries.len() as int),
            key,
        ),
{
    let s = entries.subrange(i, entries.len() as int);
    assert(s.subrange(1, s.len() as int) =~= entries.subrange(i + 1, entries.len() as int));
}

fn collect_member<'a>(entries: &'a Vec<(String, Json)>, key: &str, markets: &mut Vec<&'a Json>)
    ensures
        derefs(final(markets)@) == derefs(old(markets)@) + market_member(entries@, key@),
    decreases *entries,
{
    let ghost start = derefs(markets@);
    let mut i: usize = 0;
    proof {
        assert(entries@.subrange(0, entries@.len() as int) =~= entries@);
    }
    while i < entries.len()
        invariant
            i <= entries@.len(),
            derefs(markets@) == start,
            start == derefs(old(markets)@),
            market_member(entries@, key@) == market_member(entries@.subrange(i as int, entries@.len() as int), key@),
        decreases entries.len() - i,
    {
        if str_eq(entries[i].0.as_str(), key) {
            proof {
                assert(decreases_to!(*entries => entries@));
                assert(decreases_to!(entries@ => entries@[i as int]));
                assert(decreases_to!(entries@[i as int] => entries@[i as int].1));
                let s = entries@.subrange(i as int, entries@.len() as int);
                assert(s[0] == entries@[i as int]);
                assert(market_member(s, key@) == market_values(entries@[i as int].1));
            }
            collect_market_values(&entries[i].1, markets);
            return;
        }
        proof {
            lemma_member_skip(entries@, key@, i as int);
        }
        i = i + 1;
    }
    proof {
        assert(entries@.subrange(i as int, entries@.len() as int) =~= Seq::<(String, Json)>::empty());
    }
}

/// The first position whose text reads `yes` in any case, at or after `i`;
/// the first position where there is none.
pub open spec fn yes_index_from(outcomes: Seq<Seq<char>>, i: int) -> int
    decreases outcomes.len() - i,
{
    if i < 0 || i >= outcomes.len() {
        0
    } else if lowered(outcomes[i]) == "yes"@ {
        i
    } else {
        yes_index_from(outcomes, i + 1)
    }
}

/// The position of the `yes` outcome, in any case; the first outcome where
/// none reads so.
pub fn outcome_index(outcomes: &Vec<String>) -> (k: usize)
    ensures
        k == yes_index_from(texts(outcomes@), 0),
{
    let ghost t = texts(outcomes@);
    let mut i: usize = 0;
    while i < outcomes.len()
        invariant
            i <= outcomes@.len(),
            t == texts(outcomes@),
            yes_index_from(t, 0) == yes_index_from(t, i as int),
        decreases outcomes.len() - i,
    {
        let lower = ascii_lowercase(outcomes[i].as_str());
        if str_eq(lower.as_str(), "yes") {
            return i;
        }
        i = i + 1;
    }
    0
}

/// The text a metric is read from: a string, or a number as written.
pub open spec fn metric_text(v: Json, token: Seq<char>) -> Option<Seq<char>> {
    match json_get(v, token) {
        Some(x) => number_text(x),
        None => None,
    }
}

/// The metric kept under the token's key, as text.
pub fn metric_for_token(value: &Json, token_id: &str) -> (r: Option<String>)
    ensures
        r matches Some(s) ==> metric_text(*value, token_id@) == Some(s@),
        r is None ==> metric_text(*value, token_id@) is None,
{
    match value.get(token_id) {
        Some(Json::Text(s)) => Some(s.clone()),
        Some(Json::Number(n)) => Some(n.text.clone()),
        _ => None,
    }
}

/// The decimal a market metric holds: a string or a number, read after
/// trimming.
pub open spec fn optional_metric(v: Option<Json>) -> Option<crate::dec::DecView> {
    match v {
        Some(x) => match number_text(x) {
            Some(t) => decimal_parse(trimmed(t)),
            None => None,
        },
        None => None,
    }
}

pub fn parse_optional_decimal(value: Option<&Json>) -> (r: Option<Dec>)
    ensures
        r matches Some(d) ==> optional_metric(opt_json(value)) == Some(d@),
        r is None ==> optional_metric(opt_json(value)) is None,
{
    let text = match value {
        Some(Json::Text(s)) => s.clone(),
        Some(Json::Number(n)) => n.text.clone(),
        _ => {
            return None;
        },
    };
    let t = trim_text(text.as_str());
    parse_decimal(t.as_str())
}

/// The text with every trailing `/` removed.
pub open spec fn without_trailing_slashes(s: Seq<char>) -> Seq<char>
    decreases s.len(),
{
    if s.len() > 0 && s.last() == '/' {
        without_trailing_slashes(s.drop_last())
    } else {
        s
    }
}

/// The text with every leading `/` removed.
pub open spec fn without_leading_slashes(s: Seq<char>) -> Seq<char>
    decreases s.len(),
{
    if s.len() > 0 && s[0] == '/' {
        without_leading_slashes(s.subrange(1, s.len() as int))
    } else {
        s
    }
}

/// A base address and a path joined by exactly one `/`.
pub fn join_url(base: &str, path: &str) -> (r: String)
    ensures
        r@ == without_trailing_slashes(base@) + "/"@ + without_leading_slashes(path@),
{
    let b = crate::text::chars_of(base);
    let mut end: usize = b.len();
    proof {
        assert(b@.take(b@.len() as int) =~= b@);
    }
    while end > 0 && b[end - 1] == '/'
        invariant
            end <= b@.len(),
            b@ == base@,
            without_trailing_slashes(base@) == without_trailing_slashes(b@.take(end as int)),
        decreases end,
    {
        proof {
            assert(b@.take(end as int).drop_last() =~= b@.take(end - 1));
        }
        end = end - 1;
    }
    let p = crate::text::chars_of(path);
    let mut start: usize = 0;
    proof {
        assert(p@.subrange(0, p@.len() as int) =~= p@);
    }
    while start < p.len() && p[start as usize] == '/'
        invariant
            start <= p@.len(),
            p@ == path@,
            without_leading_slashes(path@) == without_leading_slashes(p@.subrange(start as int, p@.len() as int)),
        decreases p.len() - start,
    {
        proof {
            let s = p@.subrange(start as int, p@.len() as int);
            assert(s.subrange(1, s.len() as int) =~= p@.subrange(start + 1, p@.len() as int));
        }
        start = start + 1;
    }
    let mut out: Vec<char> = Vec::new();
    let mut i: usize = 0;
    while i < end
        invariant
            i <= end <= b@.len(),
            out@ == b@.take(i as int),
        decreases end - i,
    {
        out.push(b[i]);
        proof {
            assert(out@ =~= b@.take(i + 1));
        }
        i = i + 1;
    }
    out.push('/');
    let ghost head = out@;
    let mut j: usize = start;
    while j < p.len()
        invariant
            start <= j <= p@.len(),
            out@ == head + p@.subrange(start as int, j as int),
        decreases p.len() - j,
    {
        out.push(p[j]);
        proof {
            assert(out@ =~= head + p@.subrange(start as int, j + 1));
        }
        j = j + 1;
    }
    proof {
        let tail = p@.subrange(start as int, p@.len() as int);
        assert(!(tail.len() > 0 && tail[0] == '/'));
        assert(without_leading_slashes(tail) == tail);
        let front = b@.take(end as int);
        assert(!(front.len() > 0 && front.last() == '/'));
        assert(without_trailing_slashes(front) == front);
        reveal_strlit("/");
        assert(out@ =~= front + "/"@ + tail);
    }
    crate::text::string_from_chars(&out)
}

/// The decimal `n / 100`, for `n` from 0 to 100: a value in the unit
/// interval.
pub fn hundredths(n: i64) -> (d: Dec)
    requires
        0 <= n <= 100,
    ensures
        d@ == (n as int, 2nat),
        in_unit(d),
{
    let d = Dec::new(n, 2);
    proof {
        lemma_pow10_split(26, 2);
        reveal_with_fuel(pow10, 3);
        lemma_pow10_positive(26);
        let p = pow10(26);
        assert(units(d@) == n * p);
        assert(one_units() == p * 100);
        assert(0 <= n * p <= 100 * p) by (nonlinear_arith)
            requires
                0 <= n <= 100,
                p > 0,
        ;
    }
    d
}

/// The market is not marked inactive or closed (nor archived, where that
/// is asked).
pub open spec fn market_open(m: Json, check_archived: bool) -> bool {
    &&& field_bool(m, "active"@) != Some(false)
    &&& field_bool(m, "closed"@) != Some(true)
    &&& check_archived ==> field_bool(m, "archived"@) != Some(true)
}

/// The event page of a market: by its slug where that is not blank, else a
/// `polymarket://` address of its identifier.
pub open spec fn market_reference(m: Json, market_id: Seq<char>) -> Seq<char> {
    match field_text(m, "slug"@) {
        Some(slug) => if !is_blank(slug) {
            "https://polymarket.com/event/"@ + slug
        } else {
            "polymarket://market/"@ + market_id
        },
        None => "polymarket://market/"@ + market_id,
    }
}

pub fn reference_for(market: &Json, market_id: &str) -> (r: String)
    ensures
        r@ == market_reference(*market, market_id@),
{
    match market.text_field("slug") {
        Some(slug) => if !str_is_blank(slug) {
            concat("https://polymarket.com/event/", slug)
        } else {
            concat("polymarket://market/", market_id)
        },
        None => concat("polymarket://market/", market_id),
    }
}

/// What an open market listing gives a reader: identifier, question, the
/// `yes` token (or the first) and the price listed for it. The identifier
/// and question are trimmed and not empty.
pub open spec fn listing_fields(m: Json, check_archived: bool) -> Option<(Seq<char>, Seq<char>)> {
    if !market_open(m, check_archived) {
        None
    } else {
        match (nonblank_trimmed(json_get(m, "id"@)), nonblank_trimmed(json_get(m, "question"@))) {
            (Some(id), Some(q)) => Some((id, q)),
            _ => None,
        }
    }
}

/// The text of an evidence summary: a lead, the question and the
/// probability.
pub open spec fn summary_text(head: Seq<char>, question: Seq<char>, p: crate::dec::DecView) -> Seq<char> {
    head + question + ": "@ + decimal_text(p)
}

/// The novelty of a change: its magnitude, or zero without one.
pub open spec fn novelty_view(delta: Option<SignedValue>) -> crate::dec::DecView {
    match delta {
        Some(d) => abs_view(d.spec_value()@),
        None => (0int, 0nat),
    }
}

/// The views of an optional decimal.
pub open spec fn opt_view(d: Option<Dec>) -> Option<crate::dec::DecView> {
    match d {
        Some(x) => Some(x@),
        None => None,
    }
}

/// The evidence record for a market's probability `p`, observed at `t`.
pub open spec fn market_evidence(
    e: IntelligenceEvidence,
    market_id: Seq<char>,
    token_id: Seq<char>,
    question: Seq<char>,
    instrument: Instrument,
    p: crate::dec::DecView,
    t: Timestamp,
    reliability: crate::dec::DecView,
    head: Seq<char>,
    reference: Seq<char>,
    liquidity: Option<crate::dec::DecView>,
    volume: Option<crate::dec::DecView>,
    spread: Option<crate::dec::DecView>,
) -> bool {
    let key = outcome_key(market_id, token_id);
    &&& e.evidence_id.0 == stable_id_value(key)
    &&& e.source == IntelligenceSource::Polymarket
    &&& e.source_event_id@ == key
    &&& e.event_time == Some(t)
    &&& e.observed_at == t
    &&& e.affected_assets@.len() == 1
    &&& e.affected_assets@[0].instrument == instrument
    &&& e.affected_assets@[0].relevance.spec_value()@ == (1int, 0nat)
    &&& e.direction == IntelligenceDirection::Unclear
    &&& e.strength matches Some(s) && s.spec_value()@ == p
    &&& e.freshness matches Some(f) && f.spec_value()@ == (1int, 0nat)
    &&& e.reliability matches Some(r) && r.spec_value()@ == reliability
    &&& e.summary@ == summary_text(head, question, p)
    &&& e.source_reference matches Some(r) && r.spec_text() == reference
    &&& e.event_fingerprint.spec_text() == "sha256:"@ + sha256_hex(
        single_entity_key("prediction_market"@, question, market_id, instrument@, 3600),
    )
    &&& e.lineage_id is None
    &&& e.payload matches EvidencePayload::PredictionMarket(pm) && {
        &&& pm.market_id@ == market_id
        &&& pm.token_id@ == token_id
        &&& pm.question@ == question
        &&& pm.implied_probability.spec_value()@ == p
        &&& e.novelty matches Some(n) && n.spec_value()@ == novelty_view(pm.probability_delta)
        &&& opt_view(pm.liquidity) == liquidity
        &&& opt_view(pm.volume) == volume
        &&& opt_view(pm.spread) == spread
    }
}

/// The change an evidence record carries.
pub open spec fn delta_of(e: IntelligenceEvidence) -> Option<SignedValue> {
    match e.payload {
        EvidencePayload::PredictionMarket(pm) => pm.probability_delta,
        _ => None,
    }
}

/// `market_id:token_id`, the key a market outcome is tracked by.
pub open spec fn outcome_key(market_id: Seq<char>, token_id: Seq<char>) -> Seq<char> {
    market_id + ":"@ + token_id
}

/// Records the probability of a market's outcome and builds its evidence
/// record. The only refusal is the history's: the change since the last
/// observation is what the history gives.
pub fn build_market_evidence(
    history: &mut ProbabilityHistory,
    market_id: &String,
    token_id: &String,
    question: &String,
    instrument: &Instrument,
    probability: Probability,
    observed_at: Timestamp,
    reliability: Dec,
    head: &str,
    reference: String,
    liquidity: Option<Dec>,
    volume: Option<Dec>,
    spread: Option<Dec>,
) -> (r: Result<IntelligenceEvidence, IntelligenceError>)
    requires
        old(history).wf(),
        !is_blank(question@),
        !is_blank(reference@),
        in_unit(probability.spec_value()),
        in_unit(reliability),
    ensures
        final(history).wf(),
        final(history).spec_capacity() == old(history).spec_capacity(),
        match r {
            Ok(e) => {
                &&& record_result(
                    old(history).spec_kept(outcome_key(market_id@, token_id@)),
                    outcome_key(market_id@, token_id@),
                    observed_at,
                    probability.spec_value()@,
                    Ok(delta_of(e)),
                )
                &&& market_evidence(
                    e,
                    market_id@,
                    token_id@,
                    question@,
                    *instrument,
                    probability.spec_value()@,
                    observed_at,
                    reliability@,
                    head@,
                    reference@,
                    opt_view(liquidity),
                    opt_view(volume),
                    opt_view(spread),
                )
                &&& e.payload matches EvidencePayload::PredictionMarket(pm) && pm.implied_probability == probability
                &&& final(history).spec_kept(outcome_key(market_id@, token_id@)) == last_n(
                    old(history).spec_kept(outcome_key(market_id@, token_id@)).push(
                        ProbabilityObservation { observed_at, probability },
                    ),
                    old(history).spec_capacity(),
                )
                &&& forall|m: Seq<char>| m != outcome_key(market_id@, token_id@) ==> #[trigger] final(history).spec_kept(m)
                    == old(history).spec_kept(m)
            },
            Err(x) => {
                &&& record_result(
                    old(history).spec_kept(outcome_key(market_id@, token_id@)),
                    outcome_key(market_id@, token_id@),
                    observed_at,
                    probability.spec_value()@,
                    Err(x),
                )
                &&& *final(history) == *old(history)
            },
        },
{
    let key_head = concat(market_id.as_str(), ":");
    let key = concat(key_head.as_str(), token_id.as_str());
    proof {
        reveal_strlit(":");
        assert(key@ == outcome_key(market_id@, token_id@));
    }
    let delta = history.record(key.as_str(), observed_at, probability)?;
    let event_fingerprint = match single_entity_fingerprint("prediction_market", question.as_str(), market_id.as_str(), instrument, 3600) {
        Ok(f) => f,
        Err(_) => {
            proof {
                reveal_strlit("prediction_market");
                assert(crate::intelligence::events::normalized("prediction_market"@).len() > 0);
                assert(crate::intelligence::events::normalized(question@).len() > 0) by {
                    crate::text::lemma_blank_trimmed(question@);
                }
            }
            return Err(IntelligenceError::EmptyField { field: "canonical_topic" });
        },
    };
    let source_event_id = match SourceEventId::new(key.clone()) {
        Ok(id) => id,
        Err(_) => {
            proof {
                assert(key@[market_id@.len() as int] == ':');
            }
            return Err(IntelligenceError::EmptyField { field: "source_event_id" });
        },
    };
    let one = Dec::one();
    let relevance = Score::new(one).unwrap();
    let strength = Score::new(probability.value()).unwrap();
    let freshness = Score::new(Dec::one()).unwrap();
    let reliability_score = Score::new(reliability).unwrap();
    let magnitude = match delta {
        Some(d) => d.value().abs(),
        None => Dec::zero(),
    };
    let novelty = Score::new(magnitude).unwrap();
    let mut summary = concat(head, question.as_str());
    summary = concat(summary.as_str(), ": ");
    let shown = probability.value().to_text();
    summary = concat(summary.as_str(), shown.as_str());
    let source_reference = SourceReference::new(reference).unwrap();
    let mut affected_assets: Vec<AssetImpact> = Vec::new();
    affected_assets.push(AssetImpact { instrument: instrument.clone(), relevance });
    let evidence = IntelligenceEvidence {
        evidence_id: stable_evidence_id(key.as_str()),
        source: IntelligenceSource::Polymarket,
        source_event_id,
        event_time: Some(observed_at),
        observed_at,
        affected_assets,
        direction: IntelligenceDirection::Unclear,
        strength: Some(strength),
        freshness: Some(freshness),
        reliability: Some(reliability_score),
        novelty: Some(novelty),
        summary,
        source_reference: Some(source_reference),
        event_fingerprint,
        lineage_id: None,
        payload: EvidencePayload::PredictionMarket(PredictionMarketEvidence {
            market_id: market_id.clone(),
            token_id: token_id.clone(),
            question: question.clone(),
            implied_probability: probability,
            probability_delta: delta,
            liquidity,
            volume,
            spread,
        }),
    };
    proof {
        reveal_strlit(": ");
    }
    Ok(evidence)
}

/// A reader's configuration and the history of the probabilities it has
/// seen, kept at the configured capacity.
pub struct PricingBook {
    config: PolymarketConfig,
    history: ProbabilityHistory,
}

impl PricingBook {
    #[verifier::type_invariant]
    closed spec fn book_wf(self) -> bool {
        &&& self.config@.history_capacity > 0
        &&& self.history.wf()
        &&& self.config.keyed()
        &&& self.history.spec_capacity() == self.config@.history_capacity
    }

    pub closed spec fn spec_config(&self) -> PolymarketConfigView {
        self.config@
    }

    pub closed spec fn spec_history(&self) -> ProbabilityHistory {
        self.history
    }

    /// An empty history at the configured capacity; refused where that
    /// capacity is zero.
    pub fn new(config: PolymarketConfig) -> (r: Result<PricingBook, IntelligenceError>)
        requires
            config.keyed(),
        ensures
            config@.history_capacity == 0 ==> r == Err::<PricingBook, IntelligenceError>(IntelligenceError::InvalidHistoryCapacity),
            config@.history_capacity > 0 ==> (r matches Ok(b) && b.spec_config() == config@ && forall|k: Seq<char>|
                #[trigger] b.spec_history().spec_kept(k).len() == 0),
    {
        let history = ProbabilityHistory::new(config.history_capacity())?;
        Ok(PricingBook { config, history })
    }

    pub fn config(&self) -> (c: &PolymarketConfig)
        ensures
            c@ == self.spec_config(),
            c.keyed(),
    {
        proof {
            use_type_invariant(self);
        }
        &self.config
    }

    /// An empty history of the book's capacity.
    pub fn fresh_history(&self) -> (h: ProbabilityHistory)
        ensures
            h.wf(),
            h.spec_capacity() == self.spec_history().spec_capacity(),
            self.spec_history().wf(),
    {
        proof {
            use_type_invariant(self);
        }
        ProbabilityHistory::new(self.config.history_capacity()).unwrap()
    }

    /// Exchanges the book's history with another of the same capacity.
    pub fn swap_history(&mut self, other: &mut ProbabilityHistory)
        requires
            old(other).wf(),
            old(other).spec_capacity() == old(self).spec_history().spec_capacity(),
        ensures
            final(self).spec_history() == *old(other),
            *final(other) == old(self).spec_history(),
            final(self).spec_config() == old(self).spec_config(),
            final(other).wf(),
    {
        proof {
            use_type_invariant(&*self);
        }
        std::mem::swap(&mut self.history, other);
    }
}

} // verus!
