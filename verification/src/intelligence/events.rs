//! Event identity: canonical keys and their fingerprints.

use vstd::prelude::*;

use sha2::{Digest, Sha256};

use crate::domain::instrument::{lemma_lex_irreflexive, lemma_lex_total, lemma_lex_transitive, lex_lt, text_precedes, Instrument};
use crate::text::{
    is_ws,     ascii_lowercase, concat, i64_text, int_text, is_blank, join_strings, joined, lowered, str_eq, texts, texts_ascending,
    trim_text, trimmed,
};
use crate::ids::EvidenceId;
use crate::timestamp::Timestamp;
use super::IntelligenceError;

verus! {

/// The lower-case hexadecimal SHA-256 digest of the UTF-8 bytes of a text.
pub uninterp spec fn sha256_hex(text: Seq<char>) -> Seq<char>;

/// A digit of lower-case hexadecimal.
pub open spec fn is_lower_hex(c: char) -> bool {
    ('0' <= c && c <= '9') || ('a' <= c && c <= 'f')
}

pub open spec fn hex_digit_value(c: char) -> nat {
    if c <= '9' {
        (c as int - '0' as int) as nat
    } else {
        (c as int - 'a' as int + 10) as nat
    }
}

/// The value of a run of hexadecimal digits, most significant first.
pub open spec fn hex_value(s: Seq<char>) -> nat
    decreases s.len(),
{
    if s.len() == 0 {
        0
    } else {
        hex_value(s.drop_last()) * 16 + hex_digit_value(s.last())
    }
}

/// `Sha256::digest` of the text's bytes, written with `{:x}`: the 32 bytes
/// of the digest, each as two lower-case hexadecimal digits (generic-array's
/// `LowerHex`).
#[verifier::external_body]
fn sha256_hex_of(text: &str) -> (s: String)
    ensures
        s@ == sha256_hex(text@),
        s@.len() == 64,
        forall|i: int| 0 <= i < 64 ==> is_lower_hex(#[trigger] s@[i]),
{
    format!("{:x}", Sha256::digest(text.as_bytes()))
}

#[derive(Debug, PartialEq, Eq, Hash, PartialOrd, Ord)]
pub struct EventFingerprint(String);

impl EventFingerprint {
    pub closed spec fn spec_text(&self) -> Seq<char> {
        self.0@
    }

    /// The fingerprint of a canonical key: `sha256:` and the digest of the key.
    pub fn from_canonical_key(value: String) -> (r: Result<EventFingerprint, IntelligenceError>)
        ensures
            is_blank(value@) ==> r == Err::<EventFingerprint, IntelligenceError>(IntelligenceError::InvalidEventFingerprint),
            !is_blank(value@) ==> (r matches Ok(f) && f.spec_text() == "sha256:"@ + sha256_hex(value@)),
    {
        if crate::text::str_is_blank(value.as_str()) {
            return Err(IntelligenceError::InvalidEventFingerprint);
        }
        let digest = sha256_hex_of(value.as_str());
        Ok(EventFingerprint(concat("sha256:", digest.as_str())))
    }

    pub fn as_str(&self) -> (s: &str)
        ensures
            s@ == self.spec_text(),
    {
        self.0.as_str()
    }
}

impl Clone for EventFingerprint {
    fn clone(&self) -> (r: EventFingerprint)
        ensures
            r == *self,
    {
        EventFingerprint(self.0.clone())
    }
}

/// Strictly ascending in text order, so each text occurs once.
pub open spec fn ascending(s: Seq<Seq<char>>) -> bool {
    forall|i: int, j: int| 0 <= i < j < s.len() ==> lex_lt(#[trigger] s[i], #[trigger] s[j])
}

/// Adds a text to an ascending list, unless it is there already.
fn insert_text(v: &mut Vec<String>, s: String)
    requires
        ascending(texts(old(v)@)),
    ensures
        ascending(texts(final(v)@)),
        forall|x: Seq<char>| texts(final(v)@).contains(x) <==> (texts(old(v)@).contains(x) || x == s@),
{
    let ghost old_t = texts(v@);
    let mut i: usize = 0;
    while i < v.len() && lex_less(v[i].as_str(), s.as_str())
        invariant
            i <= v@.len(),
            texts(v@) == old_t,
            ascending(old_t),
            forall|k: int| 0 <= k < i ==> lex_lt(#[trigger] old_t[k], s@),
        decreases v.len() - i,
    {
        i = i + 1;
    }
    proof {
        assert forall|k: int| i <= k < old_t.len() implies !lex_lt(#[trigger] old_t[k], s@) by {
            if k > i as int {
                assert(lex_lt(old_t[i as int], old_t[k]));
                if lex_lt(old_t[k], s@) {
                    lemma_lex_transitive(old_t[i as int], old_t[k], s@);
                }
            }
        }
    }
    if i < v.len() && v[i] == s {
        proof {
            assert forall|x: Seq<char>| texts(v@).contains(x) <==> (old_t.contains(x) || x == s@) by {
                if x == s@ {
                    assert(old_t[i as int] == x);
                }
            }
        }
        return;
    }
    proof {
        assert forall|k: int| i <= k < old_t.len() implies lex_lt(s@, #[trigger] old_t[k]) by {
            lemma_lex_total(s@, old_t[k]);
            if k == i as int {
                assert(old_t[k] == v@[k]@);
            } else {
                assert(lex_lt(old_t[i as int], old_t[k]));
                lemma_lex_total(s@, old_t[i as int]);
                if !(s@ =~= old_t[i as int]) && !lex_lt(old_t[i as int], s@) {
                    lemma_lex_transitive(s@, old_t[i as int], old_t[k]);
                }
            }
        }
    }
    let ghost sv = s@;
    v.insert(i, s);
    proof {
        let t = texts(v@);
        assert(t =~= old_t.insert(i as int, sv));
        assert(ascending(t)) by {
            assert forall|a: int, b: int| 0 <= a < b < t.len() implies lex_lt(#[trigger] t[a], #[trigger] t[b]) by {
                if a < i as int && b < i as int {
                } else if a < i as int && b == i as int {
                } else if a < i as int {
                    assert(t[b] == old_t[b - 1]);
                } else if a == i as int {
                    assert(t[b] == old_t[b - 1]);
                } else {
                    assert(t[a] == old_t[a - 1] && t[b] == old_t[b - 1]);
                }
            }
        }
        assert forall|x: Seq<char>| t.contains(x) <==> (old_t.contains(x) || x == sv) by {
            if t.contains(x) {
                let k = choose|k: int| 0 <= k < t.len() && t[k] == x;
                if k < i as int {
                    assert(old_t[k] == x);
                } else if k > i as int {
                    assert(old_t[k - 1] == x);
                }
            }
            if old_t.contains(x) {
                let k = choose|k: int| 0 <= k < old_t.len() && old_t[k] == x;
                if k < i as int {
                    assert(t[k] == x);
                } else {
                    assert(t[k + 1] == x);
                }
            }
            if x == sv {
                assert(t[i as int] == x);
            }
        }
    }
}

/// Text order of two strings.
fn lex_less(a: &str, b: &str) -> (r: bool)
    ensures
        r == lex_lt(a@, b@),
{
    crate::domain::instrument::text_precedes(a, b)
}

/// A text made canonical: trimmed and in ASCII lower case.
pub open spec fn normalized(s: Seq<char>) -> Seq<char> {
    lowered(trimmed(s))
}

/// `value.trim().to_ascii_lowercase()`.
fn normalize(value: &str) -> (r: String)
    ensures
        r@ == normalized(value@),
{
    let t = trim_text(value);
    ascii_lowercase(t.as_str())
}

fn normalize_required(value: String, field: &'static str) -> (r: Result<String, IntelligenceError>)
    ensures
        normalized(value@).len() == 0 ==> r == Err::<String, IntelligenceError>(IntelligenceError::EmptyField { field }),
        normalized(value@).len() > 0 ==> (r matches Ok(s) && s@ == normalized(value@)),
{
    let v = normalize(value.as_str());
    if v.unicode_len() == 0 {
        return Err(IntelligenceError::EmptyField { field });
    }
    Ok(v)
}

/// The canonical names: normalized, without empty ones, ascending and without repeats.
fn normalized_strings(values: Vec<String>) -> (r: Vec<String>)
    ensures
        ascending(texts(r@)),
        forall|x: Seq<char>| texts(r@).contains(x) <==> (x.len() > 0 && exists|i: int| 0 <= i < values@.len()
            && normalized(#[trigger] values@[i]@) == x),
{
    let mut out: Vec<String> = Vec::new();
    let mut i: usize = 0;
    while i < values.len()
        invariant
            i <= values@.len(),
            ascending(texts(out@)),
            forall|x: Seq<char>| texts(out@).contains(x) <==> (x.len() > 0 && exists|k: int| 0 <= k < i
                && normalized(#[trigger] values@[k]@) == x),
        decreases values.len() - i,
    {
        let v = normalize(values[i].as_str());
        let ghost before = texts(out@);
        if v.unicode_len() > 0 {
            insert_text(&mut out, v);
        }
        proof {
            assert forall|x: Seq<char>| texts(out@).contains(x) <==> (x.len() > 0 && exists|k: int| 0 <= k < i + 1
                && normalized(#[trigger] values@[k]@) == x) by {
                if x.len() > 0 && exists|k: int| 0 <= k < i + 1 && normalized(#[trigger] values@[k]@) == x {
                    let k = choose|k: int| 0 <= k < i + 1 && normalized(#[trigger] values@[k]@) == x;
                    if k < i as int {
                        assert(before.contains(x));
                    }
                }
            }
        }
        i = i + 1;
    }
    out
}

#[derive(Debug, PartialEq, Eq)]
pub struct EventIdentity {
    event_kind: String,
    canonical_topic: String,
    named_entities: Vec<String>,
    affected_assets: Vec<String>,
    event_time: Option<Timestamp>,
    time_bucket_seconds: i64,
}

/// The text of an optional bucket as `{:?}` writes it.
pub open spec fn bucket_text(b: Option<int>) -> Seq<char> {
    match b {
        Some(n) => "Some("@ + int_text(n) + ")"@,
        None => "None"@,
    }
}

impl EventIdentity {
    pub closed spec fn spec_kind(&self) -> Seq<char> {
        self.event_kind@
    }

    pub closed spec fn spec_topic(&self) -> Seq<char> {
        self.canonical_topic@
    }

    pub closed spec fn spec_entities(&self) -> Seq<Seq<char>> {
        texts(self.named_entities@)
    }

    pub closed spec fn spec_assets(&self) -> Seq<Seq<char>> {
        texts(self.affected_assets@)
    }

    pub closed spec fn spec_event_time(&self) -> Option<Timestamp> {
        self.event_time
    }

    pub closed spec fn spec_bucket_seconds(&self) -> i64 {
        self.time_bucket_seconds
    }

    /// The canonical key of the event: kind, topic, entities, assets and time bucket.
    pub open spec fn canonical_key(&self) -> Seq<char> {
        "v1|kind="@ + self.spec_kind() + "|topic="@ + self.spec_topic() + "|entities="@ + joined(
            self.spec_entities(),
            ","@,
        ) + "|assets="@ + joined(self.spec_assets(), ","@) + "|bucket="@ + bucket_text(
            match self.spec_event_time() {
                Some(t) => Some(t.unix_seconds as int / self.spec_bucket_seconds() as int),
                None => None,
            },
        )
    }

    /// An identity with normalized kind and topic, canonical entity names,
    /// and the affected assets sorted without repeats.
    pub fn new(
        event_kind: String,
        canonical_topic: String,
        named_entities: Vec<String>,
        affected_assets: Vec<Instrument>,
        event_time: Option<Timestamp>,
        time_bucket_seconds: i64,
    ) -> (r: Result<EventIdentity, IntelligenceError>)
        ensures
            normalized(event_kind@).len() == 0 ==> r == Err::<EventIdentity, IntelligenceError>(
                IntelligenceError::EmptyField { field: "event_kind" },
            ),
            normalized(event_kind@).len() > 0 && normalized(canonical_topic@).len() == 0 ==> r == Err::<
                EventIdentity,
                IntelligenceError,
            >(IntelligenceError::EmptyField { field: "canonical_topic" }),
            normalized(event_kind@).len() > 0 && normalized(canonical_topic@).len() > 0 && affected_assets@.len() == 0
                ==> r == Err::<EventIdentity, IntelligenceError>(IntelligenceError::EmptyField { field: "affected_assets" }),
            normalized(event_kind@).len() > 0 && normalized(canonical_topic@).len() > 0 && affected_assets@.len() > 0
                && time_bucket_seconds <= 0 ==> r == Err::<EventIdentity, IntelligenceError>(IntelligenceError::InvalidTimeBucket),
            r matches Ok(id) ==> {
                &&& id.spec_kind() == normalized(event_kind@)
                &&& id.spec_topic() == normalized(canonical_topic@)
                &&& ascending(id.spec_entities())
                &&& (forall|x: Seq<char>| id.spec_entities().contains(x) <==> (x.len() > 0 && exists|i: int|
                    0 <= i < named_entities@.len() && normalized(#[trigger] named_entities@[i]@) == x))
                &&& ascending(id.spec_assets())
                &&& (forall|x: Seq<char>| id.spec_assets().contains(x) <==> exists|i: int|
                    0 <= i < affected_assets@.len() && (#[trigger] affected_assets@[i])@ == x)
                &&& id.spec_event_time() == event_time
                &&& id.spec_bucket_seconds() == time_bucket_seconds
            },
            normalized(event_kind@).len() > 0 && normalized(canonical_topic@).len() > 0 && affected_assets@.len() > 0
                && time_bucket_seconds > 0 ==> r is Ok,
    {
        let event_kind = normalize_required(event_kind, "event_kind")?;
        let canonical_topic = normalize_required(canonical_topic, "canonical_topic")?;
        if affected_assets.len() == 0 {
            return Err(IntelligenceError::EmptyField { field: "affected_assets" });
        }
        if time_bucket_seconds <= 0 {
            return Err(IntelligenceError::InvalidTimeBucket);
        }
        let named_entities = normalized_strings(named_entities);
        let mut assets: Vec<String> = Vec::new();
        let mut i: usize = 0;
        while i < affected_assets.len()
            invariant
                i <= affected_assets@.len(),
                ascending(texts(assets@)),
                forall|x: Seq<char>| texts(assets@).contains(x) <==> exists|k: int| 0 <= k < i && (#[trigger] affected_assets@[k])@ == x,
            decreases affected_assets.len() - i,
        {
            let ghost before = texts(assets@);
            insert_text(&mut assets, affected_assets[i].to_symbol_string());
            proof {
                assert forall|x: Seq<char>| texts(assets@).contains(x) <==> exists|k: int| 0 <= k < i + 1 && (#[trigger] affected_assets@[k])@ == x by {
                    if exists|k: int| 0 <= k < i + 1 && (#[trigger] affected_assets@[k])@ == x {
                        let k = choose|k: int| 0 <= k < i + 1 && (#[trigger] affected_assets@[k])@ == x;
                        if k < i as int {
                            assert(before.contains(x));
                        }
                    }
                }
            }
            i = i + 1;
        }
        Ok(EventIdentity {
            event_kind,
            canonical_topic,
            named_entities,
            affected_assets: assets,
            event_time,
            time_bucket_seconds,
        })
    }

    /// The fingerprint of the identity's canonical key.
    pub fn fingerprint(&self) -> (r: Result<EventFingerprint, IntelligenceError>)
        requires
            self.spec_bucket_seconds() > 0,
        ensures
            r matches Ok(f) ==> f.spec_text() == "sha256:"@ + sha256_hex(self.canonical_key()),
            r is Err ==> is_blank(self.canonical_key()),
    {
        let bucket = match self.event_time {
            Some(t) => {
                let q = floor_div(t.unix_timestamp(), self.time_bucket_seconds);
                let text = i64_text(q);
                let a = concat("Some(", text.as_str());
                concat(a.as_str(), ")")
            },
            None => String::from_str("None"),
        };
        let entities = join_strings(&self.named_entities, ",");
        let assets = join_strings(&self.affected_assets, ",");
        let mut canonical = concat("v1|kind=", self.event_kind.as_str());
        canonical = concat(canonical.as_str(), "|topic=");
        canonical = concat(canonical.as_str(), self.canonical_topic.as_str());
        canonical = concat(canonical.as_str(), "|entities=");
        canonical = concat(canonical.as_str(), entities.as_str());
        canonical = concat(canonical.as_str(), "|assets=");
        canonical = concat(canonical.as_str(), assets.as_str());
        canonical = concat(canonical.as_str(), "|bucket=");
        canonical = concat(canonical.as_str(), bucket.as_str());
        proof {
            assert(canonical@ =~= self.canonical_key());
        }
        EventFingerprint::from_canonical_key(canonical)
    }
}

/// `a.div_euclid(b)` for a positive divisor: the floor of the quotient.
fn floor_div(a: i64, b: i64) -> (q: i64)
    requires
        b > 0,
    ensures
        q as int == a as int / b as int,
{
    let ai = a as i128;
    let bi = b as i128;
    if ai >= 0 {
        let q = ((ai as u128) / (bi as u128)) as i128;
        assert(q == ai / bi) by (nonlinear_arith)
            requires
                ai >= 0,
                bi > 0,
                q == (ai as u128) / (bi as u128),
        ;
        q as i64
    } else {
        let m = (-ai - 1) as u128;
        let t = (m / (bi as u128)) as i128;
        let q = -t - 1;
        assert(q == ai / bi) by (nonlinear_arith)
            requires
                ai < 0,
                bi > 0,
                m == -ai - 1,
                t == m / (bi as u128),
                q == -t - 1,
        ;
        assert(q >= ai);
        q as i64
    }
}

pub open spec fn pow16(n: nat) -> nat
    decreases n,
{
    if n == 0 {
        1
    } else {
        16 * pow16((n - 1) as nat)
    }
}

proof fn lemma_hex_value_bound(s: Seq<char>)
    requires
        forall|i: int| 0 <= i < s.len() ==> is_lower_hex(#[trigger] s[i]),
    ensures
        hex_value(s) < pow16(s.len()),
    decreases s.len(),
{
    if s.len() > 0 {
        assert(is_lower_hex(s[s.len() - 1]));
        lemma_hex_value_bound(s.drop_last());
    }
}

/// The identifier a key stands for: the first 16 bytes of the SHA-256
/// digest of the key, read as a big-endian 128-bit value.
pub open spec fn stable_id_value(key: Seq<char>) -> nat {
    hex_value(sha256_hex(key).take(32))
}

/// The same key always gives the same evidence identifier.
pub fn stable_evidence_id(key: &str) -> (id: EvidenceId)
    ensures
        id.0 == stable_id_value(key@),
{
    let digest = sha256_hex_of(key);
    let ghost d = digest@;
    let mut value: u128 = 0;
    let mut i: usize = 0;
    proof {
        reveal_with_fuel(pow16, 33);
        assert(pow16(32) == 0x1_0000_0000_0000_0000_0000_0000_0000_0000);
    }
    while i < 32
        invariant
            i <= 32,
            d == digest@,
            d.len() == 64,
            forall|k: int| 0 <= k < 64 ==> is_lower_hex(#[trigger] d[k]),
            value == hex_value(d.take(i as int)),
            pow16(32) == 0x1_0000_0000_0000_0000_0000_0000_0000_0000,
        decreases 32 - i,
    {
        let c = digest.as_str().get_char(i);
        let digit: u128 = if c <= '9' {
            (c as u32 - '0' as u32) as u128
        } else {
            (c as u32 - 'a' as u32 + 10) as u128
        };
        proof {
            assert(d.take(i + 1).drop_last() =~= d.take(i as int));
            assert(d.take(i + 1).last() == c);
            assert(is_lower_hex(d[i as int]));
            let t = d.take(i + 1);
            assert forall|k: int| 0 <= k < t.len() implies is_lower_hex(#[trigger] t[k]) by {
                assert(t[k] == d[k]);
            }
            lemma_hex_value_bound(t);
            lemma_pow16_mono((i + 1) as nat, 32);
        }
        value = value * 16 + digit;
        i = i + 1;
    }
    EvidenceId::from_uuid(value)
}

proof fn lemma_pow16_mono(a: nat, b: nat)
    requires
        a <= b,
    ensures
        pow16(a) <= pow16(b),
    decreases b - a,
{
    if a < b {
        lemma_pow16_mono(a, (b - 1) as nat);
    }
}

/// The canonical key of an event about one entity and one asset, without
/// an event time.
pub open spec fn single_entity_key(kind: Seq<char>, topic: Seq<char>, entity: Seq<char>, asset: Seq<char>, bucket: i64) -> Seq<char> {
    "v1|kind="@ + normalized(kind) + "|topic="@ + normalized(topic) + "|entities="@ + normalized(entity) + "|assets="@
        + asset + "|bucket="@ + "None"@
}

proof fn lemma_single(s: Seq<Seq<char>>, e: Seq<char>, present: bool)
    requires
        ascending(s),
        forall|x: Seq<char>| s.contains(x) <==> (present && x == e),
    ensures
        joined(s, ","@) == (if present { e } else { Seq::empty() }),
{
    if s.len() >= 2 {
        assert(s.contains(s[0]) && s.contains(s[1]));
        assert(lex_lt(s[0], s[1]));
        lemma_lex_irreflexive(s[0]);
    }
    if s.len() == 1 {
        assert(s.contains(s[0]));
    }
    if present {
        assert(s.contains(e));
    }
}

/// The fingerprint of an event about one entity and one asset, with no
/// event time: refused where the kind or the topic is blank.
pub fn single_entity_fingerprint(kind: &str, topic: &str, entity: &str, asset: &Instrument, bucket: i64) -> (r: Result<EventFingerprint, IntelligenceError>)
    requires
        bucket > 0,
    ensures
        normalized(kind@).len() == 0 ==> r == Err::<EventFingerprint, IntelligenceError>(IntelligenceError::EmptyField { field: "event_kind" }),
        normalized(kind@).len() > 0 && normalized(topic@).len() == 0 ==> r == Err::<EventFingerprint, IntelligenceError>(
            IntelligenceError::EmptyField { field: "canonical_topic" },
        ),
        normalized(kind@).len() > 0 && normalized(topic@).len() > 0 ==> (r matches Ok(f) && f.spec_text() == "sha256:"@
            + sha256_hex(single_entity_key(kind@, topic@, entity@, asset@, bucket))),
{
    let mut entities: Vec<String> = Vec::new();
    entities.push(String::from_str(entity));
    let mut assets: Vec<Instrument> = Vec::new();
    assets.push(asset.clone());
    let identity = EventIdentity::new(String::from_str(kind), String::from_str(topic), entities, assets, None, bucket)?;
    proof {
        let es = identity.spec_entities();
        let e = normalized(entity@);
        assert forall|x: Seq<char>| es.contains(x) <==> (e.len() > 0 && x == e) by {
            if e.len() > 0 && x == e {
                assert(normalized(entities@[0]@) == x);
            }
        }
        lemma_single(es, e, e.len() > 0);
        let as_ = identity.spec_assets();
        assert forall|x: Seq<char>| as_.contains(x) <==> (true && x == asset@) by {
            if x == asset@ {
                assert(assets@[0]@ == x);
            }
        }
        lemma_single(as_, asset@, true);
        assert(identity.canonical_key() =~= single_entity_key(kind@, topic@, entity@, asset@, bucket));
    }
    match identity.fingerprint() {
        Ok(f) => Ok(f),
        Err(e) => {
            proof {
                reveal_strlit("v1|kind=");
                let k = identity.canonical_key();
                assert(k[0] == 'v');
                assert(!is_ws(k[0]));
            }
            Err(e)
        },
    }
}

/// The texts of a sequence of fingerprints.
pub open spec fn fingerprint_texts(v: Seq<EventFingerprint>) -> Seq<Seq<char>> {
    Seq::new(v.len(), |i: int| v[i].spec_text())
}

/// Adds a fingerprint to a list kept strictly ascending by text, unless it
/// is there already.
pub fn insert_fingerprint(v: &mut Vec<EventFingerprint>, x: EventFingerprint)
    requires
        texts_ascending(fingerprint_texts(old(v)@)),
    ensures
        texts_ascending(fingerprint_texts(final(v)@)),
        forall|s: Seq<char>| fingerprint_texts(final(v)@).contains(s) <==> (fingerprint_texts(old(v)@).contains(s) || s == x.spec_text()),
{
    let ghost old_t = fingerprint_texts(v@);
    let mut i: usize = 0;
    while i < v.len() && text_precedes(v[i].0.as_str(), x.0.as_str())
        invariant
            i <= v@.len(),
            fingerprint_texts(v@) == old_t,
            texts_ascending(old_t),
            forall|k: int| 0 <= k < i ==> lex_lt(#[trigger] old_t[k], x.spec_text()),
        decreases v.len() - i,
    {
        i = i + 1;
    }
    proof {
        assert forall|k: int| i <= k < old_t.len() implies !lex_lt(#[trigger] old_t[k], x.spec_text()) by {
            if k > i as int {
                assert(lex_lt(old_t[i as int], old_t[k]));
                if lex_lt(old_t[k], x.spec_text()) {
                    lemma_lex_transitive(old_t[i as int], old_t[k], x.spec_text());
                }
            }
        }
    }
    if i < v.len() && str_eq(v[i].0.as_str(), x.0.as_str()) {
        proof {
            assert forall|s: Seq<char>| fingerprint_texts(v@).contains(s) <==> (old_t.contains(s) || s == x.spec_text()) by {
                if s == x.spec_text() {
                    assert(old_t[i as int] == s);
                }
            }
        }
        return;
    }
    proof {
        assert forall|k: int| i <= k < old_t.len() implies lex_lt(x.spec_text(), #[trigger] old_t[k]) by {
            lemma_lex_total(x.spec_text(), old_t[k]);
            if k == i as int {
                assert(old_t[k] == v@[k].spec_text());
            } else {
                assert(lex_lt(old_t[i as int], old_t[k]));
                lemma_lex_total(x.spec_text(), old_t[i as int]);
                if !(x.spec_text() =~= old_t[i as int]) && !lex_lt(old_t[i as int], x.spec_text()) {
                    lemma_lex_transitive(x.spec_text(), old_t[i as int], old_t[k]);
                }
            }
        }
    }
    let ghost xv = x.spec_text();
    v.insert(i, x);
    proof {
        let t = fingerprint_texts(v@);
        assert(t =~= old_t.insert(i as int, xv));
        assert(texts_ascending(t)) by {
            assert forall|a: int, b: int| 0 <= a < b < t.len() implies lex_lt(#[trigger] t[a], #[trigger] t[b]) by {
                if a < i as int && b < i as int {
                } else if a < i as int && b == i as int {
                } else if a < i as int {
                    assert(t[b] == old_t[b - 1]);
                } else if a == i as int {
                    assert(t[b] == old_t[b - 1]);
                } else {
                    assert(t[a] == old_t[a - 1] && t[b] == old_t[b - 1]);
                }
            }
        }
        assert forall|s: Seq<char>| t.contains(s) <==> (old_t.contains(s) || s == xv) by {
            if t.contains(s) {
                let k = choose|k: int| 0 <= k < t.len() && t[k] == s;
                if k < i as int {
                    assert(old_t[k] == s);
                } else if k > i as int {
                    assert(old_t[k - 1] == s);
                }
            }
            if old_t.contains(s) {
                let k = choose|k: int| 0 <= k < old_t.len() && old_t[k] == s;
                if k < i as int {
                    assert(t[k] == s);
                } else {
                    assert(t[k + 1] == s);
                }
            }
            if s == xv {
                assert(t[i as int] == s);
            }
        }
    }
}

} // verus!
