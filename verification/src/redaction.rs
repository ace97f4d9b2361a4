//! Secret-key redaction of audit payloads: members whose keys name a
//! credential are dropped, at every depth, before anything is stored.

use vstd::prelude::*;

use crate::atk::json::Json;

verus! {

pub open spec fn is_ascii_alnum(c: char) -> bool {
    ('0' <= c && c <= '9') || ('a' <= c && c <= 'z') || ('A' <= c && c <= 'Z')
}

pub open spec fn lower_ascii(c: char) -> char {
    if 'A' <= c && c <= 'Z' {
        ((c as u32) + 32) as char
    } else {
        c
    }
}

/// A key reduced to its ASCII letters and digits, in lower case.
pub open spec fn key_norm(k: Seq<char>) -> Seq<char>
    decreases k.len(),
{
    if k.len() == 0 {
        Seq::empty()
    } else {
        let rest = key_norm(k.drop_last());
        if is_ascii_alnum(k.last()) {
            rest.push(lower_ascii(k.last()))
        } else {
            rest
        }
    }
}

/// A key that names a credential, however it is spelled.
pub open spec fn secret_key(k: Seq<char>) -> bool {
    let n = key_norm(k);
    ||| n == "apikey"@
    ||| n == "apisecret"@
    ||| n == "secret"@
    ||| n == "passphrase"@
    ||| n == "authorization"@
    ||| n == "accesstoken"@
    ||| n == "password"@
    ||| n == "privatekey"@
    ||| n == "bearertoken"@
}

/// No member anywhere in the value has a credential key.
pub open spec fn secret_free(v: Json) -> bool
    decreases v,
{
    match v {
        Json::Array(items) => {
            proof {
                assert(decreases_to!(v => items));
                assert(decreases_to!(items => items@));
            }
            items_free(items@)
        },
        Json::Object(entries) => {
            proof {
                assert(decreases_to!(v => entries));
                assert(decreases_to!(entries => entries@));
            }
            entries_free(entries@)
        },
        _ => true,
    }
}

pub open spec fn items_free(s: Seq<Json>) -> bool
    decreases s,
{
    if s.len() == 0 {
        true
    } else {
        proof {
            assert(decreases_to!(s => s[s.len() - 1]));
            assert(decreases_to!(s => s.subrange(0, s.len() - 1)));
        }
        items_free(s.subrange(0, s.len() - 1)) && secret_free(s[s.len() - 1])
    }
}

pub open spec fn entries_free(s: Seq<(String, Json)>) -> bool
    decreases s,
{
    if s.len() == 0 {
        true
    } else {
        proof {
            assert(decreases_to!(s => s[s.len() - 1]));
            assert(decreases_to!(s[s.len() - 1] => s[s.len() - 1].1));
            assert(decreases_to!(s => s.subrange(0, s.len() - 1)));
        }
        entries_free(s.subrange(0, s.len() - 1)) && !secret_key(s[s.len() - 1].0@) && secret_free(s[s.len() - 1].1)
    }
}

/// The keys an object keeps: those that name no credential, in order.
pub open spec fn kept_keys(s: Seq<Seq<char>>) -> Seq<Seq<char>> {
    s.filter(|k: Seq<char>| !secret_key(k))
}

pub open spec fn entry_keys(s: Seq<(String, Json)>) -> Seq<Seq<char>> {
    Seq::new(s.len(), |i: int| s[i].0@)
}

fn normalized_key(key: &str) -> (n: String)
    ensures
        n@ == key_norm(key@),
{
    let chars = crate::text::chars_of(key);
    let mut out: Vec<char> = Vec::new();
    let mut i: usize = 0;
    while i < chars.len()
        invariant
            i <= chars@.len(),
            chars@ == key@,
            out@ == key_norm(chars@.take(i as int)),
        decreases chars.len() - i,
    {
        let c = chars[i];
        proof {
            assert(chars@.take(i + 1).drop_last() =~= chars@.take(i as int));
        }
        if ('0' <= c && c <= '9') || ('a' <= c && c <= 'z') || ('A' <= c && c <= 'Z') {
            let lower = if 'A' <= c && c <= 'Z' {
                ((c as u32) + 32) as u8 as char
            } else {
                c
            };
            proof {
                if 'A' <= c && c <= 'Z' {
                    assert(lower == lower_ascii(c)) by {
                        assert((c as u32) + 32 < 256);
                    }
                }
            }
            out.push(lower);
        }
        i = i + 1;
    }
    proof {
        assert(chars@.take(chars@.len() as int) =~= chars@);
    }
    crate::text::string_from_chars(&out)
}

fn is_secret_key(key: &str) -> (b: bool)
    ensures
        b == secret_key(key@),
{
    let n = normalized_key(key);
    let t = n.as_str();
    crate::text::str_eq(t, "apikey") || crate::text::str_eq(t, "apisecret") || crate::text::str_eq(t, "secret")
        || crate::text::str_eq(t, "passphrase") || crate::text::str_eq(t, "authorization") || crate::text::str_eq(
        t,
        "accesstoken",
    ) || crate::text::str_eq(t, "password") || crate::text::str_eq(t, "privatekey") || crate::text::str_eq(t, "bearertoken")
}

/// The payload with every credential member removed, at every depth;
/// other members keep their order, and values that are neither arrays nor
/// objects are kept as they are.
pub fn sanitize_payload(value: Json) -> (r: Json)
    ensures
        secret_free(r),
        value is Array <==> r is Array,
        value is Object <==> r is Object,
        value matches Json::Array(a) ==> (r matches Json::Array(b) && b@.len() == a@.len()),
        value matches Json::Object(a) ==> (r matches Json::Object(b) && entry_keys(b@) == kept_keys(entry_keys(a@))),
        !(value is Array) && !(value is Object) ==> r == value,
    decreases value,
{
    let ghost whole = value;
    match value {
        Json::Array(items) => {
            let ghost all = items@;
            let mut rest = items;
            let mut out: Vec<Json> = Vec::new();
            let mut n: usize = 0;
            proof {
                assert(all.subrange(0, all.len() as int) =~= all);
                assert(all.len() == rest.len());
            }
            while rest.len() > 0
                invariant
                    n <= all.len(),
                    all.len() <= usize::MAX,
                    whole == Json::Array(items),
                    whole == value,
                    items@ == all,
                    rest@ == all.subrange(n as int, all.len() as int),
                    out@.len() == n,
                    items_free(out@),
                decreases rest.len(),
            {
                let item = rest.remove(0);
                proof {
                    assert(item == all[n as int]);
                    assert(decreases_to!(whole => whole->Array_0));
                    assert(whole->Array_0 == items);
                    assert(decreases_to!(items => items@));
                    assert(decreases_to!(items@ => items@[n as int]));
                }
                let clean = sanitize_payload(item);
                let ghost before = out@;
                out.push(clean);
                proof {
                    assert(out@.subrange(0, out@.len() - 1) =~= before);
                }
                n = n + 1;
            }
            Json::Array(out)
        },
        Json::Object(entries) => {
            let ghost all = entries@;
            let mut rest = entries;
            let mut out: Vec<(String, Json)> = Vec::new();
            let mut n: usize = 0;
            proof {
                assert(all.subrange(0, all.len() as int) =~= all);
                assert(all.len() == rest.len());
                assert(all.subrange(0, 0) =~= Seq::<(String, Json)>::empty());
                assert(kept_keys(entry_keys(Seq::<(String, Json)>::empty())) =~= Seq::<Seq<char>>::empty()) by {
                    reveal(Seq::filter);
                }
            }
            while rest.len() > 0
                invariant
                    n <= all.len(),
                    all.len() <= usize::MAX,
                    whole == Json::Object(entries),
                    whole == value,
                    entries@ == all,
                    rest@ == all.subrange(n as int, all.len() as int),
                    entries_free(out@),
                    entry_keys(out@) == kept_keys(entry_keys(all.subrange(0, n as int))),
                decreases rest.len(),
            {
                let (key, item) = rest.remove(0);
                proof {
                    assert(key == all[n as int].0 && item == all[n as int].1);
                    assert(decreases_to!(whole => whole->Object_0));
                    assert(whole->Object_0 == entries);
                    assert(decreases_to!(entries => entries@));
                    assert(decreases_to!(entries@ => entries@[n as int]));
                    assert(decreases_to!(entries@[n as int] => entries@[n as int].1));
                    let pre = entry_keys(all.subrange(0, n as int));
                    assert(entry_keys(all.subrange(0, n + 1)) =~= pre.push(key@));
                    reveal(Seq::filter);
                    assert(pre.push(key@).drop_last() =~= pre);
                }
                let secret = is_secret_key(key.as_str());
                if !secret {
                    let clean = sanitize_payload(item);
                    let ghost before = out@;
                    out.push((key, clean));
                    proof {
                        assert(out@.subrange(0, out@.len() - 1) =~= before);
                        assert(entry_keys(out@) =~= entry_keys(before).push(out@.last().0@));
                    }
                }
                n = n + 1;
            }
            Json::Object(out)
        },
        other => other,
    }
}

/// A redacted object's own members are free of credential keys (deeper
/// members are too, by `secret_free`).
pub proof fn law_redacted_object_has_no_secret_member(r: Json)
    requires
        secret_free(r),
        r is Object,
    ensures
        r matches Json::Object(e) && forall|i: int| 0 <= i < e@.len() ==> !secret_key(#[trigger] e@[i].0@),
{
    if let Json::Object(e) = r {
        lemma_entries_free_all(e@);
    }
}

proof fn lemma_entries_free_all(s: Seq<(String, Json)>)
    requires
        entries_free(s),
    ensures
        forall|i: int| 0 <= i < s.len() ==> !secret_key(#[trigger] s[i].0@),
    decreases s.len(),
{
    if s.len() > 0 {
        let t = s.subrange(0, s.len() - 1);
        lemma_entries_free_all(t);
        assert forall|i: int| 0 <= i < s.len() implies !secret_key(#[trigger] s[i].0@) by {
            if i < s.len() - 1 {
                assert(s[i] == t[i]);
            }
        }
    }
}

} // verus!
