//! Character-level text predicates used by the validation rules.

use vstd::prelude::*;

use crate::domain::instrument::{lemma_lex_total, lemma_lex_transitive, lex_lt, text_precedes};

verus! {

/// The Unicode `White_Space` property, which `char::is_whitespace` tests.
pub open spec fn is_ws(c: char) -> bool {
    let u = c as u32;
    ||| 0x09 <= u <= 0x0D
    ||| u == 0x20
    ||| u == 0x85
    ||| u == 0xA0
    ||| u == 0x1680
    ||| 0x2000 <= u <= 0x200A
    ||| u == 0x2028
    ||| u == 0x2029
    ||| u == 0x202F
    ||| u == 0x205F
    ||| u == 0x3000
}

/// Every character is whitespace, so trimming leaves the empty string.
pub open spec fn is_blank(s: Seq<char>) -> bool {
    forall|i: int| 0 <= i < s.len() ==> is_ws(#[trigger] s[i])
}

/// Some character is whitespace.
pub open spec fn has_ws(s: Seq<char>) -> bool {
    exists|i: int| 0 <= i < s.len() && is_ws(#[trigger] s[i])
}

pub open spec fn is_ascii_upper_or_digit(c: char) -> bool {
    ('A' <= c && c <= 'Z') || ('0' <= c && c <= '9')
}

pub fn char_is_whitespace(c: char) -> (b: bool)
    ensures
        b == is_ws(c),
{
    let u = c as u32;
    (0x09 <= u && u <= 0x0D) || u == 0x20 || u == 0x85 || u == 0xA0 || u == 0x1680 || (0x2000
        <= u && u <= 0x200A) || u == 0x2028 || u == 0x2029 || u == 0x202F || u == 0x205F || u
        == 0x3000
}

/// The characters of `s`.
pub fn chars_of(s: &str) -> (v: Vec<char>)
    ensures
        v@ == s@,
{
    let n = s.unicode_len();
    let mut v: Vec<char> = Vec::new();
    let mut i: usize = 0;
    while i < n
        invariant
            n == s@.len(),
            i <= n,
            v@ == s@.subrange(0, i as int),
        decreases n - i,
    {
        v.push(s.get_char(i));
        i = i + 1;
    }
    v
}

/// `s.trim().is_empty()`.
pub fn str_is_blank(s: &str) -> (b: bool)
    ensures
        b == is_blank(s@),
{
    let n = s.unicode_len();
    let mut i: usize = 0;
    while i < n
        invariant
            n == s@.len(),
            i <= n,
            forall|j: int| 0 <= j < i ==> is_ws(#[trigger] s@[j]),
        decreases n - i,
    {
        if !char_is_whitespace(s.get_char(i)) {
            return false;
        }
        i = i + 1;
    }
    true
}

/// `s.chars().any(char::is_whitespace)`.
pub fn str_has_whitespace(s: &str) -> (b: bool)
    ensures
        b == has_ws(s@),
{
    let n = s.unicode_len();
    let mut i: usize = 0;
    while i < n
        invariant
            n == s@.len(),
            i <= n,
            forall|j: int| 0 <= j < i ==> !is_ws(#[trigger] s@[j]),
        decreases n - i,
    {
        if char_is_whitespace(s.get_char(i)) {
            return true;
        }
        i = i + 1;
    }
    false
}

/// Some element of `items` is not blank.
pub open spec fn any_not_blank(items: Seq<String>) -> bool {
    exists|i: int| 0 <= i < items.len() && !is_blank(#[trigger] items[i]@)
}

pub fn strings_any_not_blank(items: &Vec<String>) -> (b: bool)
    ensures
        b == any_not_blank(items@),
{
    let mut i: usize = 0;
    while i < items.len()
        invariant
            i <= items@.len(),
            forall|j: int| 0 <= j < i ==> is_blank(#[trigger] items@[j]@),
        decreases items@.len() - i,
    {
        if !str_is_blank(items[i].as_str()) {
            return true;
        }
        i = i + 1;
    }
    false
}

/// `String::push`.
#[verifier::external_body]
pub fn string_push(s: &mut String, c: char)
    ensures
        final(s)@ == old(s)@.push(c),
{
    s.push(c)
}

/// The string made of the characters of `v`.
pub fn string_from_chars(v: &Vec<char>) -> (s: String)
    ensures
        s@ == v@,
{
    let mut s = String::new();
    let mut i: usize = 0;
    while i < v.len()
        invariant
            i <= v@.len(),
            s@ == v@.subrange(0, i as int),
        decreases v@.len() - i,
    {
        string_push(&mut s, v[i]);
        proof {
            assert(v@.subrange(0, i + 1) == v@.subrange(0, i as int).push(v@[i as int]));
        }
        i = i + 1;
    }
    proof {
        assert(v@.subrange(0, v@.len() as int) == v@);
    }
    s
}

} // verus!

verus! {

/// The decimal digits of `n`, most significant first.
pub open spec fn decimal_digits(n: nat) -> Seq<char>
    decreases n,
{
    if n < 10 {
        seq![digit_char(n)]
    } else {
        decimal_digits(n / 10).push(digit_char(n % 10))
    }
}

pub open spec fn digit_char(d: nat) -> char {
    if d == 0 { '0' } else if d == 1 { '1' } else if d == 2 { '2' } else if d == 3 { '3' } else if d == 4 { '4' }
    else if d == 5 { '5' } else if d == 6 { '6' } else if d == 7 { '7' } else if d == 8 { '8' } else { '9' }
}

fn digit(d: u64) -> (c: char)
    requires
        d < 10,
    ensures
        c == digit_char(d as nat),
{
    if d == 0 { '0' } else if d == 1 { '1' } else if d == 2 { '2' } else if d == 3 { '3' } else if d == 4 { '4' }
    else if d == 5 { '5' } else if d == 6 { '6' } else if d == 7 { '7' } else if d == 8 { '8' } else { '9' }
}

/// The decimal representation of `n`, as `n.to_string()` writes it.
pub fn u64_text(n: u64) -> (s: String)
    ensures
        s@ == decimal_digits(n as nat),
    decreases n,
{
    if n < 10 {
        let mut s = String::new();
        string_push(&mut s, digit(n));
        proof {
            assert(s@ =~= seq![digit_char(n as nat)]);
        }
        s
    } else {
        let mut s = u64_text(n / 10);
        string_push(&mut s, digit(n % 10));
        s
    }
}

/// `a` followed by `b`.
pub fn concat(a: &str, b: &str) -> (s: String)
    ensures
        s@ == a@ + b@,
{
    let mut s = String::from_str(a);
    s.append(b);
    s
}

} // verus!

verus! {

pub open spec fn hex_char(d: nat) -> char {
    if d < 10 {
        digit_char(d)
    } else if d == 10 { 'a' } else if d == 11 { 'b' } else if d == 12 { 'c' } else if d == 13 { 'd' }
    else if d == 14 { 'e' } else { 'f' }
}

/// The last `n` lower-case hexadecimal digits of `v`, most significant first.
pub open spec fn hex_digits(v: nat, n: nat) -> Seq<char>
    decreases n,
{
    if n == 0 {
        Seq::empty()
    } else {
        hex_digits(v / 16, (n - 1) as nat).push(hex_char(v % 16))
    }
}

fn hex_digit(d: u128) -> (c: char)
    requires
        d < 16,
    ensures
        c == hex_char(d as nat),
{
    if d < 10 {
        digit(d as u64)
    } else if d == 10 { 'a' } else if d == 11 { 'b' } else if d == 12 { 'c' } else if d == 13 { 'd' }
    else if d == 14 { 'e' } else { 'f' }
}

/// The lower-case hexadecimal text of the last `n` digits of `v`, padded with zeros.
pub fn hex_text(v: u128, n: u32) -> (s: String)
    ensures
        s@ == hex_digits(v as nat, n as nat),
    decreases n,
{
    if n == 0 {
        String::new()
    } else {
        let mut s = hex_text(v / 16, n - 1);
        string_push(&mut s, hex_digit(v % 16));
        s
    }
}

} // verus!

verus! {

/// How many whitespace characters `s` starts with.
pub open spec fn leading_ws(s: Seq<char>) -> nat
    decreases s.len(),
{
    if s.len() > 0 && is_ws(s[0]) {
        1 + leading_ws(s.drop_first())
    } else {
        0
    }
}

/// How many whitespace characters `s` ends with.
pub open spec fn trailing_ws(s: Seq<char>) -> nat
    decreases s.len(),
{
    if s.len() > 0 && is_ws(s.last()) {
        1 + trailing_ws(s.drop_last())
    } else {
        0
    }
}

/// `s` without leading and trailing whitespace, as `str::trim` gives it.
pub open spec fn trimmed(s: Seq<char>) -> Seq<char> {
    if is_blank(s) {
        Seq::empty()
    } else {
        s.subrange(leading_ws(s) as int, s.len() - trailing_ws(s))
    }
}

pub proof fn lemma_leading_ws(s: Seq<char>, k: int)
    requires
        0 <= k <= s.len(),
        forall|i: int| 0 <= i < k ==> is_ws(#[trigger] s[i]),
        k < s.len() ==> !is_ws(s[k]),
    ensures
        leading_ws(s) == k,
    decreases k,
{
    if k > 0 {
        assert forall|i: int| 0 <= i < k - 1 implies is_ws(#[trigger] s.drop_first()[i]) by {
            assert(s.drop_first()[i] == s[i + 1]);
        }
        if k < s.len() {
            assert(s.drop_first()[k - 1] == s[k]);
        }
        lemma_leading_ws(s.drop_first(), k - 1);
    }
}

pub proof fn lemma_trailing_ws(s: Seq<char>, k: int)
    requires
        0 <= k <= s.len(),
        forall|i: int| s.len() - k <= i < s.len() ==> is_ws(#[trigger] s[i]),
        k < s.len() ==> !is_ws(s[s.len() - 1 - k]),
    ensures
        trailing_ws(s) == k,
    decreases k,
{
    if k > 0 {
        let t = s.drop_last();
        assert forall|i: int| t.len() - (k - 1) <= i < t.len() implies is_ws(#[trigger] t[i]) by {
            assert(t[i] == s[i]);
        }
        if k < s.len() {
            assert(t[t.len() - 1 - (k - 1)] == s[s.len() - 1 - k]);
        }
        lemma_trailing_ws(t, k - 1);
    }
}

proof fn lemma_leading_ws_props(s: Seq<char>)
    ensures
        leading_ws(s) <= s.len(),
        forall|i: int| 0 <= i < leading_ws(s) ==> is_ws(#[trigger] s[i]),
        leading_ws(s) < s.len() ==> !is_ws(s[leading_ws(s) as int]),
    decreases s.len(),
{
    if s.len() > 0 && is_ws(s[0]) {
        lemma_leading_ws_props(s.drop_first());
        assert forall|i: int| 0 <= i < leading_ws(s) implies is_ws(#[trigger] s[i]) by {
            if i > 0 {
                assert(s[i] == s.drop_first()[i - 1]);
            }
        }
    }
}

proof fn lemma_trailing_ws_props(s: Seq<char>)
    ensures
        trailing_ws(s) <= s.len(),
        forall|i: int| s.len() - trailing_ws(s) <= i < s.len() ==> is_ws(#[trigger] s[i]),
        trailing_ws(s) < s.len() ==> !is_ws(s[s.len() - 1 - trailing_ws(s)]),
    decreases s.len(),
{
    if s.len() > 0 && is_ws(s.last()) {
        lemma_trailing_ws_props(s.drop_last());
        assert forall|i: int| s.len() - trailing_ws(s) <= i < s.len() implies is_ws(#[trigger] s[i]) by {
            if i < s.len() - 1 {
                assert(s[i] == s.drop_last()[i]);
            }
        }
        if trailing_ws(s) < s.len() {
            assert(s[s.len() - 1 - trailing_ws(s)] == s.drop_last()[s.drop_last().len() - 1 - trailing_ws(s.drop_last())]);
        }
    }
}

/// A text trims to nothing exactly when it is blank.
pub proof fn lemma_blank_trimmed(s: Seq<char>)
    ensures
        is_blank(s) <==> trimmed(s).len() == 0,
{
    if !is_blank(s) {
        lemma_leading_ws_props(s);
        lemma_trailing_ws_props(s);
        let k = choose|k: int| 0 <= k < s.len() && !is_ws(#[trigger] s[k]);
        assert(leading_ws(s) <= k) by {
            if k < leading_ws(s) {
                assert(is_ws(s[k]));
            }
        }
        assert(k < s.len() - trailing_ws(s)) by {
            if k >= s.len() - trailing_ws(s) {
                assert(is_ws(s[k]));
            }
        }
    }
}

/// Trimming a trimmed text changes nothing.
pub proof fn lemma_trimmed_idempotent(s: Seq<char>)
    ensures
        trimmed(trimmed(s)) == trimmed(s),
{
    if !is_blank(s) {
        lemma_leading_ws_props(s);
        lemma_trailing_ws_props(s);
        let l = leading_ws(s) as int;
        let e = s.len() - trailing_ws(s);
        let k = choose|k: int| 0 <= k < s.len() && !is_ws(#[trigger] s[k]);
        assert(l <= k) by {
            if k < l {
                assert(is_ws(s[k]));
            }
        }
        assert(k < e) by {
            if k >= e {
                assert(is_ws(s[k]));
            }
        }
        let t = s.subrange(l, e);
        assert(t[0] == s[l]);
        assert(t[t.len() - 1] == s[e - 1]);
        assert(!is_blank(t)) by {
            assert(!is_ws(t[0]));
        }
        lemma_leading_ws(t, 0);
        lemma_trailing_ws(t, 0);
        assert(t.subrange(0, t.len() as int) =~= t);
    } else {
        assert(trimmed(s) =~= Seq::<char>::empty());
    }
}

/// `str::trim`: the text without leading and trailing whitespace.
pub fn trim_text(s: &str) -> (r: String)
    ensures
        r@ == trimmed(s@),
{
    let v = chars_of(s);
    let n = v.len();
    let mut i: usize = 0;
    while i < n && char_is_whitespace(v[i])
        invariant
            n == v@.len(),
            v@ == s@,
            i <= n,
            forall|k: int| 0 <= k < i ==> is_ws(#[trigger] v@[k]),
        decreases n - i,
    {
        i = i + 1;
    }
    if i == n {
        return String::new();
    }
    let mut j: usize = n;
    while j > i && char_is_whitespace(v[j - 1])
        invariant
            n == v@.len(),
            v@ == s@,
            i < j <= n,
            !is_ws(v@[i as int]),
            forall|k: int| j <= k < n ==> is_ws(#[trigger] v@[k]),
        decreases j,
    {
        j = j - 1;
    }
    proof {
        lemma_leading_ws(s@, i as int);
        lemma_trailing_ws(s@, (n - j) as int);
        assert(!is_ws(s@[i as int]));
    }
    let mut out: Vec<char> = Vec::new();
    let mut k: usize = i;
    while k < j
        invariant
            i <= k <= j <= n,
            n == v@.len(),
            out@ == v@.subrange(i as int, k as int),
        decreases j - k,
    {
        out.push(v[k]);
        proof {
            assert(v@.subrange(i as int, k + 1) =~= v@.subrange(i as int, k as int).push(v@[k as int]));
        }
        k = k + 1;
    }
    string_from_chars(&out)
}

/// The ASCII lower-case form of a character.
pub open spec fn ascii_lower(c: char) -> char {
    if 'A' <= c && c <= 'Z' {
        ((c as u32) + 32) as char
    } else {
        c
    }
}

pub open spec fn lowered(s: Seq<char>) -> Seq<char> {
    Seq::new(s.len(), |i: int| ascii_lower(s[i]))
}

/// `str::to_ascii_lowercase`.
pub fn ascii_lowercase(s: &str) -> (r: String)
    ensures
        r@ == lowered(s@),
{
    let v = chars_of(s);
    let mut out: Vec<char> = Vec::new();
    let mut i: usize = 0;
    while i < v.len()
        invariant
            i <= v@.len(),
            v@ == s@,
            out@ == lowered(v@.subrange(0, i as int)),
        decreases v.len() - i,
    {
        let c = v[i];
        let l = if 'A' <= c && c <= 'Z' {
            let b = (c as u32) as u8;
            (b + 32) as char
        } else {
            c
        };
        out.push(l);
        proof {
            assert(out@ =~= lowered(v@.subrange(0, i + 1)));
        }
        i = i + 1;
    }
    proof {
        assert(v@.subrange(0, v@.len() as int) =~= v@);
    }
    string_from_chars(&out)
}

/// The decimal text of an integer, with a leading minus sign when negative.
pub open spec fn int_text(n: int) -> Seq<char> {
    if n < 0 {
        seq!['-'] + decimal_digits((-n) as nat)
    } else {
        decimal_digits(n as nat)
    }
}

/// `i64::to_string`.
pub fn i64_text(n: i64) -> (s: String)
    ensures
        s@ == int_text(n as int),
{
    if n < 0 {
        let magnitude: u64 = if n == i64::MIN { 9_223_372_036_854_775_808u64 } else { (-n) as u64 };
        let digits = u64_text(magnitude);
        proof {
            reveal_strlit("-");
            assert("-"@ =~= seq!['-']);
        }
        concat("-", digits.as_str())
    } else {
        u64_text(n as u64)
    }
}

/// The items joined with the separator between them.
pub open spec fn joined(items: Seq<Seq<char>>, sep: Seq<char>) -> Seq<char>
    decreases items.len(),
{
    if items.len() == 0 {
        Seq::empty()
    } else if items.len() == 1 {
        items[0]
    } else {
        joined(items.drop_last(), sep) + sep + items.last()
    }
}

/// The views of a sequence of strings.
pub open spec fn texts(v: Seq<String>) -> Seq<Seq<char>> {
    Seq::new(v.len(), |i: int| v[i]@)
}

/// `[String]::join`.
pub fn join_strings(items: &Vec<String>, sep: &str) -> (s: String)
    ensures
        s@ == joined(texts(items@), sep@),
{
    let mut s = String::new();
    let mut i: usize = 0;
    while i < items.len()
        invariant
            i <= items@.len(),
            s@ == joined(texts(items@.subrange(0, i as int)), sep@),
        decreases items.len() - i,
    {
        let ghost prev = texts(items@.subrange(0, i as int));
        let ghost next = texts(items@.subrange(0, i + 1));
        proof {
            assert(next.drop_last() =~= prev);
            assert(next.last() == items@[i as int]@);
        }
        if i > 0 {
            s.append(sep);
        }
        s.append(items[i].as_str());
        proof {
            if i == 0 {
                assert(next.len() == 1);
                assert(s@ =~= next[0]);
            } else {
                assert(s@ =~= joined(prev, sep@) + sep@ + next.last());
            }
        }
        i = i + 1;
    }
    proof {
        assert(items@.subrange(0, items@.len() as int) =~= items@);
    }
    s
}

} // verus!

verus! {

/// Whether two texts are the same.
pub fn str_eq(a: &str, b: &str) -> (r: bool)
    ensures
        r == (a@ == b@),
{
    let x = String::from_str(a);
    let y = String::from_str(b);
    x == y
}

} // verus!

verus! {

/// Strictly ascending in text order.
pub open spec fn texts_ascending(s: Seq<Seq<char>>) -> bool {
    forall|i: int, j: int| 0 <= i < j < s.len() ==> lex_lt(#[trigger] s[i], #[trigger] s[j])
}

/// Adds a text to a strictly ascending list, unless it is there already.
pub fn insert_text_sorted(v: &mut Vec<String>, x: String)
    requires
        texts_ascending(texts(old(v)@)),
    ensures
        texts_ascending(texts(final(v)@)),
        forall|s: Seq<char>| texts(final(v)@).contains(s) <==> (texts(old(v)@).contains(s) || s == x@),
{
    let ghost old_t = texts(v@);
    let mut i: usize = 0;
    while i < v.len() && text_precedes(v[i].as_str(), x.as_str())
        invariant
            i <= v@.len(),
            texts(v@) == old_t,
            texts_ascending(old_t),
            forall|k: int| 0 <= k < i ==> lex_lt(#[trigger] old_t[k], x@),
        decreases v.len() - i,
    {
        i = i + 1;
    }
    proof {
        assert forall|k: int| i <= k < old_t.len() implies !lex_lt(#[trigger] old_t[k], x@) by {
            if k > i as int {
                assert(lex_lt(old_t[i as int], old_t[k]));
                if lex_lt(old_t[k], x@) {
                    lemma_lex_transitive(old_t[i as int], old_t[k], x@);
                }
            }
        }
    }
    if i < v.len() && str_eq(v[i].as_str(), x.as_str()) {
        proof {
            assert forall|s: Seq<char>| texts(v@).contains(s) <==> (old_t.contains(s) || s == x@) by {
                if s == x@ {
                    assert(old_t[i as int] == s);
                }
            }
        }
        return;
    }
    proof {
        assert forall|k: int| i <= k < old_t.len() implies lex_lt(x@, #[trigger] old_t[k]) by {
            lemma_lex_total(x@, old_t[k]);
            if k == i as int {
                assert(old_t[k] == v@[k]@);
            } else {
                assert(lex_lt(old_t[i as int], old_t[k]));
                lemma_lex_total(x@, old_t[i as int]);
                if !(x@ =~= old_t[i as int]) && !lex_lt(old_t[i as int], x@) {
                    lemma_lex_transitive(x@, old_t[i as int], old_t[k]);
                }
            }
        }
    }
    let ghost xv = x@;
    v.insert(i, x);
    proof {
        let t = texts(v@);
        assert(t =~= old_t.insert(i as int, xv));
        assert(texts_ascending(t)) by {
            assert forall|a: int, b: int| 0 <= a < b < t.len() implies lex_lt(#[trigger] t[a], #[trigger] t[b]) by {
                if a < i as int && b < i as int {
                } else if a < i as int && b == i as int {
                } else if a < i as int {
                    assert(t[b] == old_t[b - 1]);
                } else if a == i as int {
                    assert(t[b] == old_t[b - 1]);
                } else {
                    assert(t[a] == old_t[a - 1] && t[b] == old_t[b - 1]);
                }
            }
        }
        assert forall|s: Seq<char>| t.contains(s) <==> (old_t.contains(s) || s == xv) by {
            if t.contains(s) {
                let k = choose|k: int| 0 <= k < t.len() && t[k] == s;
                if k < i as int {
                    assert(old_t[k] == s);
                } else if k > i as int {
                    assert(old_t[k - 1] == s);
                }
            }
            if old_t.contains(s) {
                let k = choose|k: int| 0 <= k < old_t.len() && old_t[k] == s;
                if k < i as int {
                    assert(t[k] == s);
                } else {
                    assert(t[k + 1] == s);
                }
            }
            if s == xv {
                assert(t[i as int] == s);
            }
        }
    }
}

} // verus!

verus! {

/// The number of bytes UTF-8 takes for the character.
pub open spec fn char_utf8_len(c: char) -> nat {
    if (c as u32) < 0x80 {
        1
    } else if (c as u32) < 0x800 {
        2
    } else if (c as u32) < 0x10000 {
        3
    } else {
        4
    }
}

/// The number of bytes of the text in UTF-8.
pub open spec fn utf8_len(s: Seq<char>) -> nat
    decreases s.len(),
{
    if s.len() == 0 {
        0
    } else {
        utf8_len(s.drop_last()) + char_utf8_len(s.last())
    }
}

proof fn lemma_utf8_prefix(s: Seq<char>, k: int)
    requires
        0 <= k <= s.len(),
    ensures
        utf8_len(s.take(k)) <= utf8_len(s),
    decreases s.len(),
{
    if k < s.len() {
        lemma_utf8_prefix(s.drop_last(), k);
        assert(s.drop_last().take(k) =~= s.take(k));
    } else {
        assert(s.take(k) =~= s);
    }
}

/// Whether the text takes more than `limit` bytes in UTF-8.
pub fn utf8_len_exceeds(s: &str, limit: usize) -> (b: bool)
    requires
        limit < 1024,
    ensures
        b == (utf8_len(s@) > limit),
{
    let n = s.unicode_len();
    let mut total: usize = 0;
    let mut i: usize = 0;
    while i < n
        invariant
            n == s@.len(),
            i <= n,
            limit < 1024,
            total == utf8_len(s@.take(i as int)),
            total <= limit,
        decreases n - i,
    {
        let c = s.get_char(i);
        let code = c as u32;
        let w: usize = if code < 0x80 {
            1
        } else if code < 0x800 {
            2
        } else if code < 0x10000 {
            3
        } else {
            4
        };
        proof {
            assert(s@.take(i + 1).drop_last() =~= s@.take(i as int));
            assert(s@.take(i + 1).last() == c);
        }
        total = total + w;
        i = i + 1;
        if total > limit {
            proof {
                lemma_utf8_prefix(s@, i as int);
            }
            return true;
        }
    }
    proof {
        assert(s@.take(n as int) =~= s@);
    }
    false
}

} // verus!

verus! {

/// Whether `s` begins with `prefix`.
pub fn str_starts_with(s: &str, prefix: &str) -> (b: bool)
    ensures
        b == prefix@.is_prefix_of(s@),
{
    let n = s.unicode_len();
    let m = prefix.unicode_len();
    if m > n {
        return false;
    }
    let mut i: usize = 0;
    while i < m
        invariant
            n == s@.len(),
            m == prefix@.len(),
            m <= n,
            i <= m,
            forall|k: int| 0 <= k < i ==> prefix@[k] == s@[k],
        decreases m - i,
    {
        if s.get_char(i) != prefix.get_char(i) {
            return false;
        }
        i = i + 1;
    }
    proof {
        assert(prefix@ =~= s@.subrange(0, m as int));
    }
    true
}

} // verus!

verus! {

pub open spec fn is_digit(c: char) -> bool {
    '0' <= c && c <= '9'
}

/// The value of a string of decimal digits.
pub open spec fn digits_value(d: Seq<char>) -> int
    decreases d.len(),
{
    if d.len() == 0 {
        0
    } else {
        digits_value(d.drop_last()) * 10 + (d.last() as int - '0' as int)
    }
}

pub open spec fn all_digits(d: Seq<char>) -> bool {
    d.len() > 0 && forall|i: int| 0 <= i < d.len() ==> is_digit(#[trigger] d[i])
}

/// The integer written as an optional sign and at least one decimal digit.
pub open spec fn integer_value(s: Seq<char>) -> Option<int> {
    if s.len() > 0 && (s[0] == '-' || s[0] == '+') {
        let d = s.drop_first();
        if all_digits(d) {
            Some(
                if s[0] == '-' {
                    -digits_value(d)
                } else {
                    digits_value(d)
                },
            )
        } else {
            None
        }
    } else if all_digits(s) {
        Some(digits_value(s))
    } else {
        None
    }
}

proof fn lemma_digits_prefix(d: Seq<char>, k: int)
    requires
        0 <= k <= d.len(),
        forall|i: int| 0 <= i < d.len() ==> is_digit(#[trigger] d[i]),
    ensures
        digits_value(d) >= digits_value(d.take(k)) >= 0,
    decreases d.len(),
{
    if d.len() == 0 {
        assert(d.take(k) =~= d);
    } else if k == d.len() {
        assert(d.take(k) =~= d);
        lemma_digits_prefix(d.drop_last(), d.len() - 1);
        assert(d.drop_last().take(d.len() - 1) =~= d.drop_last());
    } else {
        lemma_digits_prefix(d.drop_last(), k);
        assert(d.drop_last().take(k) =~= d.take(k));
        assert(is_digit(d[d.len() - 1]));
    }
}

/// `str::parse::<i128>`: an optional sign and at least one decimal digit,
/// within the `i128` range.
pub fn parse_i128(s: &str) -> (r: Option<i128>)
    ensures
        r == match integer_value(s@) {
            Some(v) => if i128::MIN <= v <= i128::MAX {
                Some(v as i128)
            } else {
                None
            },
            None => None,
        },
{
    let n = s.unicode_len();
    if n == 0 {
        return None;
    }
    let first = s.get_char(0);
    let signed = first == '-' || first == '+';
    let neg = first == '-';
    let start: usize = if signed {
        1
    } else {
        0
    };
    if start == n {
        proof {
            assert(s@.drop_first().len() == 0);
        }
        return None;
    }
    let ghost d = s@.subrange(start as int, n as int);
    proof {
        if signed {
            assert(d =~= s@.drop_first());
        } else {
            assert(d =~= s@);
        }
    }
    let ghost signed_value = |x: int| if neg {
        -x
    } else {
        x
    };
    assert(integer_value(s@) == if all_digits(d) {
        Some(signed_value(digits_value(d)))
    } else {
        None::<int>
    });
    let mut mag: u128 = 0;
    let mut i: usize = start;
    while i < n
        invariant
            n == s@.len(),
            start <= i <= n,
            d == s@.subrange(start as int, n as int),
            mag == digits_value(d.take(i - start)),
            forall|k: int| 0 <= k < i - start ==> is_digit(#[trigger] d[k]),
            d.len() > 0,
            integer_value(s@) == if all_digits(d) {
                Some(signed_value(digits_value(d)))
            } else {
                None::<int>
            },
            signed_value == (|x: int| if neg {
                -x
            } else {
                x
            }),
        decreases n - i,
    {
        let c = s.get_char(i);
        proof {
            assert(d[i - start] == c);
        }
        if !('0' <= c && c <= '9') {
            proof {
                assert(!is_digit(d[i - start]));
            }
            return None;
        }
        let digit = ((c as u32) - 48) as u128;
        proof {
            assert(d.take(i - start + 1).drop_last() =~= d.take(i - start));
            assert(d.take(i - start + 1).last() == c);
        }
        let next = match mag.checked_mul(10) {
            Some(m) => m.checked_add(digit),
            None => None,
        };
        match next {
            Some(v) => {
                mag = v;
            },
            None => {
                proof {
                    if all_digits(d) {
                        lemma_digits_prefix(d, i - start + 1);
                        assert(digits_value(d) > u128::MAX);
                    }
                }
                return None;
            },
        }
        i = i + 1;
    }
    proof {
        assert(d.take(n - start) =~= d);
    }
    if neg {
        if mag == 0x8000_0000_0000_0000_0000_0000_0000_0000u128 {
            Some(i128::MIN)
        } else if mag < 0x8000_0000_0000_0000_0000_0000_0000_0000u128 {
            Some(-(mag as i128))
        } else {
            None
        }
    } else if mag <= 0x7fff_ffff_ffff_ffff_ffff_ffff_ffff_ffffu128 {
        Some(mag as i128)
    } else {
        None
    }
}

} // verus!
