use vstd::prelude::*;

use super::error::DomainError;
use super::instrument::{hyphen_at, valid_symbol, Instrument};

verus! {

/// `s[j]` repeats an earlier symbol.
pub open spec fn repeats_earlier(s: Seq<Seq<char>>, j: int) -> bool {
    exists|i: int| 0 <= i < j && s[i] == s[j]
}

pub open spec fn no_duplicates(s: Seq<Seq<char>>) -> bool {
    forall|i: int, j: int| 0 <= i < j < s.len() ==> s[i] != s[j]
}

/// The first position whose symbol repeats an earlier one is `j`.
pub open spec fn first_repeat_at(s: Seq<Seq<char>>, j: int) -> bool {
    &&& 0 <= j < s.len()
    &&& repeats_earlier(s, j)
    &&& forall|k: int| 0 <= k < j ==> !repeats_earlier(s, k)
}

pub open spec fn symbols(v: Seq<Instrument>) -> Seq<Seq<char>> {
    v.map_values(|i: Instrument| i@)
}

/// The symbols of the initial universe.
pub open spec fn initial_symbols() -> Seq<Seq<char>> {
    seq!["BTC-USDT"@, "ETH-USDT"@, "SOL-USDT"@, "HYPE-USDT"@]
}

#[derive(Debug, PartialEq, Eq)]
pub struct TradingUniverse {
    instruments: Vec<Instrument>,
}

impl View for TradingUniverse {
    type V = Seq<Seq<char>>;

    closed spec fn view(&self) -> Seq<Seq<char>> {
        symbols(self.instruments@)
    }
}

impl Clone for TradingUniverse {
    fn clone(&self) -> (r: TradingUniverse)
        ensures
            r@ == self@,
    {
        TradingUniverse { instruments: clone_instruments(&self.instruments) }
    }
}

pub fn clone_instruments(v: &Vec<Instrument>) -> (r: Vec<Instrument>)
    ensures
        symbols(r@) == symbols(v@),
{
    let mut r: Vec<Instrument> = Vec::new();
    let mut i: usize = 0;
    while i < v.len()
        invariant
            i <= v@.len(),
            r@.len() == i,
            symbols(r@) == symbols(v@).subrange(0, i as int),
        decreases v@.len() - i,
    {
        let ghost old_r = r@;
        r.push(v[i].clone());
        proof {
            assert(symbols(r@).len() == i + 1);
            assert forall|k: int| 0 <= k < i + 1 implies symbols(r@)[k] == symbols(v@).subrange(0, i + 1)[k] by {
                if k < i {
                    assert(symbols(old_r)[k] == symbols(v@).subrange(0, i as int)[k]);
                }
            }
            assert(symbols(r@) =~= symbols(v@).subrange(0, i + 1));
        }
        i = i + 1;
    }
    proof {
        assert(symbols(v@).subrange(0, v@.len() as int) =~= symbols(v@));
    }
    r
}

impl TradingUniverse {
    /// BTC-USDT, ETH-USDT, SOL-USDT and HYPE-USDT.
    pub fn initial() -> (u: TradingUniverse)
        ensures
            u@ == initial_symbols(),
            u@.len() > 0 && no_duplicates(u@),
    {
        proof {
            reveal_strlit("BTC-USDT");
            reveal_strlit("ETH-USDT");
            reveal_strlit("SOL-USDT");
            reveal_strlit("HYPE-USDT");
            assert(hyphen_at("BTC-USDT"@, 3));
            assert(hyphen_at("ETH-USDT"@, 3));
            assert(hyphen_at("SOL-USDT"@, 3));
            assert(hyphen_at("HYPE-USDT"@, 4));
        }
        let mut instruments: Vec<Instrument> = Vec::new();
        instruments.push(known_symbol("BTC-USDT"));
        instruments.push(known_symbol("ETH-USDT"));
        instruments.push(known_symbol("SOL-USDT"));
        instruments.push(known_symbol("HYPE-USDT"));
        let u = TradingUniverse { instruments };
        proof {
            reveal_strlit("BTC-USDT");
            reveal_strlit("ETH-USDT");
            reveal_strlit("SOL-USDT");
            reveal_strlit("HYPE-USDT");
            assert(u@ =~= initial_symbols());
            assert("BTC-USDT"@[0] != "ETH-USDT"@[0]);
            assert("BTC-USDT"@[0] != "SOL-USDT"@[0]);
            assert("BTC-USDT"@[0] != "HYPE-USDT"@[0]);
            assert("ETH-USDT"@[0] != "SOL-USDT"@[0]);
            assert("ETH-USDT"@[0] != "HYPE-USDT"@[0]);
            assert("SOL-USDT"@[0] != "HYPE-USDT"@[0]);
        }
        u
    }

    pub fn new(instruments: Vec<Instrument>) -> (r: Result<TradingUniverse, DomainError>)
        ensures
            r is Ok <==> (instruments@.len() > 0 && no_duplicates(symbols(instruments@))),
            r matches Ok(u) ==> u@ == symbols(instruments@),
            r matches Err(e) ==> universe_error(symbols(instruments@), e),
    {
        let universe = TradingUniverse { instruments };
        match universe.validate() {
            Ok(()) => Ok(universe),
            Err(e) => Err(e),
        }
    }

    pub fn validate(&self) -> (r: Result<(), DomainError>)
        ensures
            r is Ok <==> (self@.len() > 0 && no_duplicates(self@)),
            r matches Err(e) ==> universe_error(self@, e),
    {
        if self.instruments.len() == 0 {
            return Err(DomainError::EmptyUniverse);
        }
        let ghost s = self@;
        let mut j: usize = 0;
        while j < self.instruments.len()
            invariant
                s == self@,
                s.len() == self.instruments@.len(),
                j <= s.len(),
                forall|a: int, b: int| 0 <= a < b < j ==> s[a] != s[b],
            decreases s.len() - j,
        {
            let mut i: usize = 0;
            while i < j
                invariant
                    s == self@,
                    s.len() == self.instruments@.len(),
                    i <= j < s.len(),
                    forall|a: int, b: int| 0 <= a < b < j ==> s[a] != s[b],
                    forall|a: int| 0 <= a < i ==> s[a] != s[j as int],
                decreases j - i,
            {
                if self.instruments[i].same_as(&self.instruments[j]) {
                    proof {
                        assert(s[i as int] == s[j as int]);
                        assert(repeats_earlier(s, j as int));
                        assert forall|k: int| 0 <= k < j implies !repeats_earlier(s, k) by {
                            if repeats_earlier(s, k) {
                                let a = choose|a: int| 0 <= a < k && s[a] == s[k];
                                assert(s[a] != s[k]);
                            }
                        }
                        assert(first_repeat_at(s, j as int));
                    }
                    return Err(DomainError::DuplicateInstrument(self.instruments[j].to_symbol_string()));
                }
                i = i + 1;
            }
            j = j + 1;
        }
        Ok(())
    }

    pub fn instruments(&self) -> (s: &[Instrument])
        ensures
            symbols(s@) == self@,
    {
        self.instruments.as_slice()
    }

    pub fn contains(&self, instrument: &Instrument) -> (b: bool)
        ensures
            b == self@.contains(instrument@),
    {
        let mut i: usize = 0;
        while i < self.instruments.len()
            invariant
                i <= self.instruments@.len(),
                self@ == symbols(self.instruments@),
                forall|k: int| 0 <= k < i ==> self@[k] != instrument@,
            decreases self.instruments@.len() - i,
        {
            if self.instruments[i].same_as(instrument) {
                proof {
                    assert(self@[i as int] == instrument@);
                }
                return true;
            }
            i = i + 1;
        }
        false
    }
}

impl Default for TradingUniverse {
    /// The initial universe.
    fn default() -> (u: TradingUniverse)
        ensures
            u@ == initial_symbols(),
            u@.len() > 0 && no_duplicates(u@),
    {
        TradingUniverse::initial()
    }
}

/// A list with a repeated symbol has a first repeat.
pub proof fn lemma_first_repeat(s: Seq<Seq<char>>)
    ensures
        !no_duplicates(s) <==> exists|j: int| first_repeat_at(s, j),
{
    if !no_duplicates(s) {
        let (a, b) = choose|a: int, b: int| 0 <= a < b < s.len() && s[a] == s[b];
        assert(repeats_earlier(s, b));
        lemma_repeat_has_first(s, b);
    }
    if exists|j: int| first_repeat_at(s, j) {
        let j = choose|j: int| first_repeat_at(s, j);
        let i = choose|i: int| 0 <= i < j && s[i] == s[j];
        assert(!no_duplicates(s));
    }
}

proof fn lemma_repeat_has_first(s: Seq<Seq<char>>, j: int)
    requires
        0 <= j < s.len(),
        repeats_earlier(s, j),
    ensures
        exists|m: int| first_repeat_at(s, m),
    decreases j,
{
    if exists|k: int| 0 <= k < j && repeats_earlier(s, k) {
        let k = choose|k: int| 0 <= k < j && repeats_earlier(s, k);
        lemma_repeat_has_first(s, k);
    } else {
        assert(first_repeat_at(s, j));
    }
}

/// The error that validation reports for the symbols `s`.
pub open spec fn universe_error(s: Seq<Seq<char>>, e: DomainError) -> bool {
    if s.len() == 0 {
        e == DomainError::EmptyUniverse
    } else {
        exists|j: int|
            first_repeat_at(s, j) && (e matches DomainError::DuplicateInstrument(name) && name@
                == s[j])
    }
}

/// The instrument for a literal symbol known to be valid.
pub(crate) fn known_symbol(symbol: &str) -> (i: Instrument)
    requires
        exists|k: int| 0 < k < 6 && hyphen_at(symbol@, k),
    ensures
        i@ == symbol@,
        valid_symbol(i@),
{
    match Instrument::parse(symbol) {
        Ok(i) => i,
        Err(_) => {
            proof {
                let k = choose|k: int| 0 < k < 6 && hyphen_at(symbol@, k);
                assert(valid_symbol(symbol@));
            }
            Instrument::parse(symbol).unwrap()
        },
    }
}

} // verus!
