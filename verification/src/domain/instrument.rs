use vstd::prelude::*;

use super::error::DomainError;
use crate::text::is_ascii_upper_or_digit;

verus! {

#[derive(Clone, Copy, Debug, PartialEq, Eq, Structural)]
pub enum MarketType {
    Spot,
}

/// A spot symbol: one non-empty base and one non-empty quote asset made of
/// ASCII upper-case letters and digits, joined by a single hyphen.
pub open spec fn valid_symbol(s: Seq<char>) -> bool {
    exists|k: int| #[trigger] hyphen_at(s, k)
}

pub open spec fn hyphen_at(s: Seq<char>, k: int) -> bool {
    &&& 0 < k < s.len() - 1
    &&& s[k] == '-'
    &&& forall|i: int| 0 <= i < s.len() && i != k ==> is_ascii_upper_or_digit(#[trigger] s[i])
}

/// Lexicographic order of symbols by character code, which is the order of
/// their UTF-8 bytes.
pub open spec fn lex_lt(a: Seq<char>, b: Seq<char>) -> bool
    decreases a.len(),
{
    if a.len() == 0 {
        b.len() > 0
    } else if b.len() == 0 {
        false
    } else if a[0] != b[0] {
        a[0] < b[0]
    } else {
        lex_lt(a.drop_first(), b.drop_first())
    }
}

pub proof fn lemma_lex_irreflexive(a: Seq<char>)
    ensures
        !lex_lt(a, a),
    decreases a.len(),
{
    if a.len() > 0 {
        lemma_lex_irreflexive(a.drop_first());
    }
}

pub proof fn lemma_lex_asymmetric(a: Seq<char>, b: Seq<char>)
    ensures
        !(lex_lt(a, b) && lex_lt(b, a)),
    decreases a.len(),
{
    if a.len() > 0 && b.len() > 0 && a[0] == b[0] {
        lemma_lex_asymmetric(a.drop_first(), b.drop_first());
    }
}

pub proof fn lemma_lex_total(a: Seq<char>, b: Seq<char>)
    ensures
        a =~= b || lex_lt(a, b) || lex_lt(b, a),
    decreases a.len(),
{
    if a.len() > 0 && b.len() > 0 && a[0] == b[0] {
        lemma_lex_total(a.drop_first(), b.drop_first());
        if a.drop_first() =~= b.drop_first() {
            assert(a =~= seq![a[0]] + a.drop_first());
            assert(b =~= seq![b[0]] + b.drop_first());
        }
    }
}

pub proof fn lemma_lex_transitive(a: Seq<char>, b: Seq<char>, c: Seq<char>)
    requires
        lex_lt(a, b),
        lex_lt(b, c),
    ensures
        lex_lt(a, c),
    decreases a.len(),
{
    if a.len() > 0 && b.len() > 0 && c.len() > 0 {
        if a[0] == b[0] && b[0] == c[0] {
            lemma_lex_transitive(a.drop_first(), b.drop_first(), c.drop_first());
        }
    }
}

#[derive(Debug, PartialEq, Eq, Hash, PartialOrd, Ord)]
pub struct Instrument(String);

impl View for Instrument {
    type V = Seq<char>;

    open spec fn view(&self) -> Seq<char> {
        self.spec_symbol()
    }
}

impl Clone for Instrument {
    fn clone(&self) -> (r: Instrument)
        ensures
            r == *self,
    {
        Instrument(self.0.clone())
    }
}

impl Instrument {
    pub closed spec fn spec_symbol(&self) -> Seq<char> {
        self.0@
    }

    /// The instrument `base-quote`.
    pub fn spot(base: &str, quote: &str) -> (r: Result<Instrument, DomainError>)
        ensures
            r is Ok <==> valid_symbol(base@ + seq!['-'] + quote@),
            r matches Ok(i) ==> i@ == base@ + seq!['-'] + quote@,
            r matches Err(e) ==> e == DomainError::InvalidInstrument,
    {
        let mut symbol = String::from_str(base);
        symbol.append("-");
        symbol.append(quote);
        proof {
            reveal_strlit("-");
            assert("-"@ =~= seq!['-']);
        }
        Self::parse(symbol.as_str())
    }

    pub fn parse(symbol: &str) -> (r: Result<Instrument, DomainError>)
        ensures
            r is Ok <==> valid_symbol(symbol@),
            r matches Ok(i) ==> i@ == symbol@,
            r matches Err(e) ==> e == DomainError::InvalidInstrument,
    {
        if check_symbol(symbol) {
            Ok(Instrument(symbol.to_owned()))
        } else {
            Err(DomainError::InvalidInstrument)
        }
    }

    pub fn symbol(&self) -> (s: &str)
        ensures
            s@ == self@,
    {
        self.0.as_str()
    }

    pub fn market_type(&self) -> (m: MarketType)
        ensures
            m == MarketType::Spot,
    {
        MarketType::Spot
    }

    pub fn validate(&self) -> (r: Result<(), DomainError>)
        ensures
            r is Ok <==> valid_symbol(self@),
            r matches Err(e) ==> e == DomainError::InvalidInstrument,
    {
        if check_symbol(self.0.as_str()) {
            Ok(())
        } else {
            Err(DomainError::InvalidInstrument)
        }
    }

    /// The symbol as an owned string.
    pub fn to_symbol_string(&self) -> (s: String)
        ensures
            s@ == self@,
    {
        self.0.clone()
    }

    /// Same symbol.
    pub fn same_as(&self, other: &Instrument) -> (b: bool)
        ensures
            b == (self@ == other@),
    {
        self.0 == other.0
    }

    /// Strictly before `other` in symbol order.
    pub fn precedes(&self, other: &Instrument) -> (b: bool)
        ensures
            b == lex_lt(self@, other@),
    {
        text_precedes(self.0.as_str(), other.0.as_str())
    }
}

/// Strictly before `t` in text order.
pub fn text_precedes(s: &str, t: &str) -> (r: bool)
    ensures
        r == lex_lt(s@, t@),
{
        let a = crate::text::chars_of(s);
        let b = crate::text::chars_of(t);
        let mut i: usize = 0;
        proof {
            assert(a@.subrange(0, a@.len() as int) =~= a@);
            assert(b@.subrange(0, b@.len() as int) =~= b@);
        }
        while i < a.len() && i < b.len()
            invariant
                i <= a@.len(),
                i <= b@.len(),
                a@.subrange(0, i as int) == b@.subrange(0, i as int),
                lex_lt(a@, b@) == lex_lt(a@.subrange(i as int, a@.len() as int), b@.subrange(
                    i as int,
                    b@.len() as int,
                )),
                a@ == s@,
                b@ == t@,
            decreases a@.len() - i,
        {
            let ghost sa = a@.subrange(i as int, a@.len() as int);
            let ghost sb = b@.subrange(i as int, b@.len() as int);
            if a[i] != b[i] {
                return a[i] < b[i];
            }
            proof {
                assert(sa.drop_first() =~= a@.subrange(i + 1, a@.len() as int));
                assert(sb.drop_first() =~= b@.subrange(i + 1, b@.len() as int));
                assert(a@.subrange(0, i + 1) =~= a@.subrange(0, i as int).push(a@[i as int]));
                assert(b@.subrange(0, i + 1) =~= b@.subrange(0, i as int).push(b@[i as int]));
            }
            i = i + 1;
        }
        i < b.len()
}

/// Whether `s` is a spot symbol.
fn check_symbol(s: &str) -> (b: bool)
    ensures
        b == valid_symbol(s@),
{
    let n = s.unicode_len();
    let mut hyphen: Option<usize> = None;
    let mut i: usize = 0;
    while i < n
        invariant
            n == s@.len(),
            i <= n,
            hyphen matches Some(k) ==> k < i && s@[k as int] == '-',
            forall|j: int|
                0 <= j < i && (hyphen matches Some(k) ==> j != k) ==> is_ascii_upper_or_digit(
                    #[trigger] s@[j],
                ),
        decreases n - i,
    {
        let c = s.get_char(i);
        if c == '-' {
            if hyphen.is_some() {
                proof {
                    assert forall|k: int| !hyphen_at(s@, k) by {
                        if hyphen_at(s@, k) {
                            let h = hyphen->0 as int;
                            if k == h {
                                assert(!is_ascii_upper_or_digit(s@[i as int]));
                            } else {
                                assert(!is_ascii_upper_or_digit(s@[h]));
                            }
                        }
                    }
                }
                return false;
            }
            hyphen = Some(i);
        } else if !(('A' <= c && c <= 'Z') || ('0' <= c && c <= '9')) {
            proof {
                assert forall|k: int| !hyphen_at(s@, k) by {
                    if hyphen_at(s@, k) {
                        assert(k != i);
                    }
                }
            }
            return false;
        }
        i = i + 1;
    }
    match hyphen {
        Some(k) => {
            if 0 < k && k + 1 < n {
                assert(hyphen_at(s@, k as int));
                true
            } else {
                proof {
                    assert forall|j: int| !hyphen_at(s@, j) by {
                        if hyphen_at(s@, j) && j != k {
                            assert(!is_ascii_upper_or_digit(s@[k as int]));
                        }
                    }
                }
                false
            }
        },
        None => {
            proof {
                assert forall|j: int| !hyphen_at(s@, j) by {
                    if hyphen_at(s@, j) {
                        assert(!is_ascii_upper_or_digit(s@[j]));
                    }
                }
            }
            false
        },
    }
}

} // verus!
