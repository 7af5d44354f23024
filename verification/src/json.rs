//! A JSON value model that the protocol and configuration logic read and
//! build, with its mathematical view.

use vstd::prelude::*;
use crate::text::{str_eq, chars_of};

verus! {

/// A JSON value. Numbers keep the decimal text that the JSON writer prints
/// for them (integers as plain digits, floats with a fraction or exponent).
/// Object entries keep their order; keys are unique in values that come
/// from a JSON reader.
#[derive(Debug)]
pub enum Json {
    Null,
    Bool(bool),
    Number(String),
    Str(String),
    Array(Vec<Json>),
    Object(Vec<(String, Json)>),
}

/// The mathematical view of a JSON value.
pub enum JsonV {
    Null,
    Bool(bool),
    Number(Seq<char>),
    Str(Seq<char>),
    Array(Seq<JsonV>),
    Object(Seq<(Seq<char>, JsonV)>),
}

pub open spec fn view_items(s: Seq<Json>) -> Seq<JsonV>
    decreases s,
{
    if s.len() == 0 {
        Seq::empty()
    } else {
        seq![view_json(s[0])] + view_items(s.drop_first())
    }
}

pub open spec fn view_entries(s: Seq<(String, Json)>) -> Seq<(Seq<char>, JsonV)>
    decreases s,
{
    if s.len() == 0 {
        Seq::empty()
    } else {
        seq![(s[0].0@, view_json(s[0].1))] + view_entries(s.drop_first())
    }
}

pub open spec fn view_json(j: Json) -> JsonV
    decreases j,
{
    match j {
        Json::Null => JsonV::Null,
        Json::Bool(b) => JsonV::Bool(b),
        Json::Number(t) => JsonV::Number(t@),
        Json::Str(s) => JsonV::Str(s@),
        Json::Array(v) => JsonV::Array(view_items(v@)),
        Json::Object(v) => JsonV::Object(view_entries(v@)),
    }
}

impl View for Json {
    type V = JsonV;

    open spec fn view(&self) -> JsonV {
        view_json(*self)
    }
}

pub proof fn lemma_view_items(s: Seq<Json>)
    ensures
        view_items(s).len() == s.len(),
        forall|i: int| 0 <= i < s.len() ==> #[trigger] view_items(s)[i] == view_json(s[i]),
    decreases s.len(),
{
    if s.len() > 0 {
        lemma_view_items(s.drop_first());
        assert forall|i: int| 0 <= i < s.len() implies #[trigger] view_items(s)[i] == view_json(s[i]) by {
            if i > 0 {
                assert(s.drop_first()[i - 1] == s[i]);
            }
        }
    }
}

pub proof fn lemma_view_entries(s: Seq<(String, Json)>)
    ensures
        view_entries(s).len() == s.len(),
        forall|i: int| 0 <= i < s.len() ==> #[trigger] view_entries(s)[i] == (s[i].0@, view_json(s[i].1)),
    decreases s.len(),
{
    if s.len() > 0 {
        lemma_view_entries(s.drop_first());
        assert forall|i: int| 0 <= i < s.len() implies #[trigger] view_entries(s)[i] == (s[i].0@, view_json(s[i].1)) by {
            if i > 0 {
                assert(s.drop_first()[i - 1] == s[i]);
            }
        }
    }
}

/// The value stored under `key`: the first entry with that key.
pub open spec fn entries_lookup(es: Seq<(Seq<char>, JsonV)>, key: Seq<char>) -> Option<JsonV>
    decreases es.len(),
{
    if es.len() == 0 {
        None
    } else if es[0].0 == key {
        Some(es[0].1)
    } else {
        entries_lookup(es.drop_first(), key)
    }
}

pub proof fn lemma_lookup_first(es: Seq<(Seq<char>, JsonV)>, key: Seq<char>, i: int)
    requires
        0 <= i < es.len(),
        es[i].0 == key,
        forall|j: int| 0 <= j < i ==> es[j].0 != key,
    ensures
        entries_lookup(es, key) == Some(es[i].1),
    decreases i,
{
    if i > 0 {
        assert(es[0].0 != key);
        let t = es.drop_first();
        assert forall|j: int| 0 <= j < i - 1 implies t[j].0 != key by {
            assert(t[j] == es[j + 1]);
        }
        lemma_lookup_first(t, key, i - 1);
    }
}

pub proof fn lemma_lookup_none(es: Seq<(Seq<char>, JsonV)>, key: Seq<char>)
    requires
        forall|j: int| 0 <= j < es.len() ==> es[j].0 != key,
    ensures
        entries_lookup(es, key) is None,
    decreases es.len(),
{
    if es.len() > 0 {
        let t = es.drop_first();
        assert forall|j: int| 0 <= j < t.len() implies t[j].0 != key by {
            assert(t[j] == es[j + 1]);
        }
        lemma_lookup_none(t, key);
    }
}

/// `value.get(key)` for an object; `None` for other values.
pub open spec fn jget(j: JsonV, key: Seq<char>) -> Option<JsonV> {
    match j {
        JsonV::Object(es) => entries_lookup(es, key),
        _ => None,
    }
}

/// `get` chained through an optional value.
pub open spec fn oget(o: Option<JsonV>, key: Seq<char>) -> Option<JsonV> {
    match o {
        Some(j) => jget(j, key),
        None => None,
    }
}

/// Element `i` of an array value.
pub open spec fn oindex(o: Option<JsonV>, i: int) -> Option<JsonV> {
    match o {
        Some(JsonV::Array(items)) => if 0 <= i < items.len() {
            Some(items[i])
        } else {
            None
        },
        _ => None,
    }
}

/// `as_str` of an optional value.
pub open spec fn ostr(o: Option<JsonV>) -> Option<Seq<char>> {
    match o {
        Some(JsonV::Str(s)) => Some(s),
        _ => None,
    }
}

/// `as_bool` of an optional value.
pub open spec fn obool(o: Option<JsonV>) -> Option<bool> {
    match o {
        Some(JsonV::Bool(b)) => Some(b),
        _ => None,
    }
}

/// `as_array` of an optional value.
pub open spec fn oarray(o: Option<JsonV>) -> Option<Seq<JsonV>> {
    match o {
        Some(JsonV::Array(items)) => Some(items),
        _ => None,
    }
}

pub open spec fn is_digit(c: char) -> bool {
    '0' <= c && c <= '9'
}

pub open spec fn all_digits(t: Seq<char>) -> bool {
    forall|i: int| 0 <= i < t.len() ==> is_digit(#[trigger] t[i])
}

/// The value of a string of decimal digits.
pub open spec fn digits_value(t: Seq<char>) -> nat
    decreases t.len(),
{
    if t.len() == 0 {
        0
    } else {
        digits_value(t.drop_last()) * 10 + ((t.last() as u32) - ('0' as u32)) as nat
    }
}

/// `as_u64` of an optional value: an integer number within `u64`.
pub open spec fn ou64(o: Option<JsonV>) -> Option<u64> {
    match o {
        Some(JsonV::Number(t)) => if t.len() > 0 && all_digits(t) && digits_value(t) <= u64::MAX {
            Some(digits_value(t) as u64)
        } else {
            None
        },
        _ => None,
    }
}

/// The value of an optionally signed string of decimal digits.
pub open spec fn signed_digits_value(t: Seq<char>) -> Option<int> {
    if t.len() > 0 && t[0] == '-' {
        let d = t.drop_first();
        if d.len() > 0 && all_digits(d) {
            Some(-(digits_value(d) as int))
        } else {
            None
        }
    } else if t.len() > 0 && all_digits(t) {
        Some(digits_value(t) as int)
    } else {
        None
    }
}

/// `as_i64` of an optional value: an integer number within `i64`.
pub open spec fn oi64(o: Option<JsonV>) -> Option<i64> {
    match o {
        Some(JsonV::Number(t)) => match signed_digits_value(t) {
            Some(v) => if i64::MIN <= v <= i64::MAX {
                Some(v as i64)
            } else {
                None
            },
            None => None,
        },
        _ => None,
    }
}

/// The view of an optional reference.
pub open spec fn oview(o: Option<&Json>) -> Option<JsonV> {
    match o {
        Some(j) => Some(j@),
        None => None,
    }
}

impl Json {
    /// A copy of the value.
    pub fn deep_clone(&self) -> (r: Json)
        ensures
            r@ == self@,
        decreases self,
    {
        match self {
            Json::Null => Json::Null,
            Json::Bool(b) => Json::Bool(*b),
            Json::Number(t) => Json::Number(t.clone()),
            Json::Str(s) => Json::Str(s.clone()),
            Json::Array(v) => {
                let mut out: Vec<Json> = Vec::new();
                let mut i: usize = 0;
                proof {
                    lemma_view_items(v@);
                }
                while i < v.len()
                    invariant
                        *self == Json::Array(*v),
                        i <= v@.len(),
                        out@.len() == i,
                        view_items(v@).len() == v@.len(),
                        forall|k: int| 0 <= k < v@.len() ==> #[trigger] view_items(v@)[k] == view_json(v@[k]),
                        forall|k: int| 0 <= k < i ==> #[trigger] view_json(out@[k]) == view_json(v@[k]),
                    decreases v@.len() - i,
                {
                    assert((*self)->Array_0 == *v && decreases_to!(*self => (*self)->Array_0));
                    assert(decreases_to!(*v => v@));
                    assert(decreases_to!(v@ => v@[i as int]));
                    let c = v[i].deep_clone();
                    out.push(c);
                    i = i + 1;
                }
                proof {
                    lemma_view_items(out@);
                    assert(view_items(out@) =~= view_items(v@));
                }
                Json::Array(out)
            },
            Json::Object(v) => {
                let mut out: Vec<(String, Json)> = Vec::new();
                let mut i: usize = 0;
                proof {
                    lemma_view_entries(v@);
                }
                while i < v.len()
                    invariant
                        *self == Json::Object(*v),
                        i <= v@.len(),
                        out@.len() == i,
                        view_entries(v@).len() == v@.len(),
                        forall|k: int| 0 <= k < v@.len() ==> #[trigger] view_entries(v@)[k] == (v@[k].0@, view_json(v@[k].1)),
                        forall|k: int| 0 <= k < i ==> #[trigger] out@[k].0@ == v@[k].0@ && view_json(out@[k].1) == view_json(v@[k].1),
                    decreases v@.len() - i,
                {
                    assert((*self)->Object_0 == *v && decreases_to!(*self => (*self)->Object_0));
                    assert(decreases_to!(*v => v@));
                    assert(decreases_to!(v@ => v@[i as int]));
                    assert(decreases_to!(v@[i as int] => v@[i as int].1));
                    let c = v[i].1.deep_clone();
                    out.push((v[i].0.clone(), c));
                    i = i + 1;
                }
                proof {
                    lemma_view_entries(out@);
                    assert(view_entries(out@) =~= view_entries(v@));
                }
                Json::Object(out)
            },
        }
    }

    /// `value.get(key)`.
    pub fn get(&self, key: &str) -> (r: Option<&Json>)
        ensures
            oview(r) == jget(self@, key@),
    {
        match self {
            Json::Object(es) => {
                proof {
                    lemma_view_entries(es@);
                }
                let mut i: usize = 0;
                while i < es.len()
                    invariant
                        *self == Json::Object(*es),
                        i <= es@.len(),
                        view_entries(es@).len() == es@.len(),
                        forall|k: int| 0 <= k < es@.len() ==> #[trigger] view_entries(es@)[k] == (es@[k].0@, view_json(es@[k].1)),
                        forall|k: int| 0 <= k < i ==> view_entries(es@)[k].0 != key@,
                    decreases es@.len() - i,
                {
                    if str_eq(es[i].0.as_str(), key) {
                        proof {
                            lemma_lookup_first(view_entries(es@), key@, i as int);
                        }
                        return Some(&es[i].1);
                    }
                    i = i + 1;
                }
                proof {
                    lemma_lookup_none(view_entries(es@), key@);
                }
                None
            },
            _ => None,
        }
    }

    /// `value.as_str()`.
    pub fn as_str(&self) -> (r: Option<&str>)
        ensures
            match r {
                Some(s) => ostr(Some(self@)) == Some(s@),
                None => ostr(Some(self@)) is None,
            },
    {
        match self {
            Json::Str(s) => Some(s.as_str()),
            _ => None,
        }
    }

    /// `value.as_bool()`.
    pub fn as_bool(&self) -> (r: Option<bool>)
        ensures
            r == obool(Some(self@)),
    {
        match self {
            Json::Bool(b) => Some(*b),
            _ => None,
        }
    }

    /// `value.is_null()`.
    pub fn is_null(&self) -> (r: bool)
        ensures
            r == (self@ is Null),
    {
        match self {
            Json::Null => true,
            _ => false,
        }
    }

    /// `value.is_object()`.
    pub fn is_object(&self) -> (r: bool)
        ensures
            r == (self@ is Object),
    {
        match self {
            Json::Object(_) => true,
            _ => false,
        }
    }

    /// `value.as_array()`.
    pub fn as_array(&self) -> (r: Option<&Vec<Json>>)
        ensures
            match r {
                Some(v) => oarray(Some(self@)) == Some(view_items(v@)),
                None => oarray(Some(self@)) is None,
            },
    {
        match self {
            Json::Array(v) => Some(v),
            _ => None,
        }
    }

    /// Element `i` of an array value.
    pub fn index(&self, i: usize) -> (r: Option<&Json>)
        ensures
            oview(r) == oindex(Some(self@), i as int),
    {
        match self {
            Json::Array(v) => {
                proof {
                    lemma_view_items(v@);
                }
                if i < v.len() {
                    Some(&v[i])
                } else {
                    None
                }
            },
            _ => None,
        }
    }

    /// `value.as_i64()`: an integer number within `i64`, written as
    /// digits with an optional leading minus sign.
    pub fn as_i64(&self) -> (r: Option<i64>)
        ensures
            r == oi64(Some(self@)),
    {
        match self {
            Json::Number(t) => {
                let cs = chars_of(t.as_str());
                if cs.len() > 0 && cs[0] == '-' {
                    let rest = crate::text::string_from_chars(crate::text::sub_chars(cs.as_slice(), 1, cs.len()).as_slice());
                    assert(rest@ =~= t@.drop_first());
                    match digits_to_u64(rest.as_str()) {
                        Some(v) => if v <= 0x8000_0000_0000_0000u64 {
                            if v == 0x8000_0000_0000_0000u64 {
                                Some(i64::MIN)
                            } else {
                                Some(-(v as i64))
                            }
                        } else {
                            None
                        },
                        None => None,
                    }
                } else {
                    match digits_to_u64(t.as_str()) {
                        Some(v) => if v <= 0x7fff_ffff_ffff_ffffu64 {
                            Some(v as i64)
                        } else {
                            None
                        },
                        None => {
                            proof {
                                if t@.len() > 0 && all_digits(t@) {
                                    assert(digits_value(t@) > u64::MAX);
                                }
                            }
                            None
                        },
                    }
                }
            },
            _ => None,
        }
    }

    /// `value.as_u64()`.
    pub fn as_u64(&self) -> (r: Option<u64>)
        ensures
            r == ou64(Some(self@)),
    {
        match self {
            Json::Number(t) => digits_to_u64(t.as_str()),
            _ => None,
        }
    }
}

/// Reads a string of decimal digits as a `u64`; `None` when it is empty,
/// holds another character, or exceeds `u64`.
pub fn digits_to_u64(s: &str) -> (r: Option<u64>)
    ensures
        r == (if s@.len() > 0 && all_digits(s@) && digits_value(s@) <= u64::MAX {
            Some(digits_value(s@) as u64)
        } else {
            None
        }),
{
    let cs = chars_of(s);
    if cs.len() == 0 {
        return None;
    }
    let mut acc: u64 = 0;
    let mut i: usize = 0;
    while i < cs.len()
        invariant
            cs@ == s@,
            i <= cs@.len(),
            all_digits(cs@.take(i as int)),
            acc as nat == digits_value(cs@.take(i as int)),
        decreases cs@.len() - i,
    {
        let c = cs[i];
        assert(cs@.take(i + 1).drop_last() =~= cs@.take(i as int));
        if !('0' <= c && c <= '9') {
            assert(!all_digits(cs@)) by {
                assert(!is_digit(cs@[i as int]));
            }
            return None;
        }
        let d = (c as u32 - '0' as u32) as u64;
        if acc > (u64::MAX - d) / 10 {
            proof {
                assert(cs@.take(i + 1).drop_last() =~= cs@.take(i as int));
                assert(digits_value(cs@.take(i + 1)) > u64::MAX);
                if all_digits(cs@) {
                    lemma_digits_prefix_bound(cs@, (i + 1) as int);
                }
            }
            return None;
        }
        acc = acc * 10 + d;
        i = i + 1;
    }
    assert(cs@.take(cs@.len() as int) =~= cs@);
    Some(acc)
}

pub proof fn lemma_digits_prefix_bound(t: Seq<char>, k: int)
    requires
        0 <= k <= t.len(),
        all_digits(t),
    ensures
        digits_value(t.take(k)) <= digits_value(t),
    decreases t.len() - k,
{
    if k < t.len() {
        lemma_digits_prefix_bound(t, k + 1);
        assert(t.take(k + 1).drop_last() =~= t.take(k));
        assert(is_digit(t[k]));
        assert(digits_value(t.take(k + 1)) == digits_value(t.take(k)) * 10 + ((t[k] as u32) - ('0' as u32)) as nat);
    } else {
        assert(t.take(k) =~= t);
    }
}

} // verus!

verus! {

/// `as_i64` through an optional value.
pub fn opt_i64(o: Option<&Json>) -> (r: Option<i64>)
    ensures
        r == oi64(oview(o)),
{
    match o {
        Some(j) => j.as_i64(),
        None => None,
    }
}

/// `get` through an optional value.
pub fn opt_get<'a>(o: Option<&'a Json>, key: &str) -> (r: Option<&'a Json>)
    ensures
        oview(r) == oget(oview(o), key@),
{
    match o {
        Some(j) => j.get(key),
        None => None,
    }
}

/// `as_str` through an optional value.
pub fn opt_str<'a>(o: Option<&'a Json>) -> (r: Option<&'a str>)
    ensures
        match r {
            Some(s) => ostr(oview(o)) == Some(s@),
            None => ostr(oview(o)) is None,
        },
{
    match o {
        Some(j) => j.as_str(),
        None => None,
    }
}

/// `as_bool` through an optional value.
pub fn opt_bool(o: Option<&Json>) -> (r: Option<bool>)
    ensures
        r == obool(oview(o)),
{
    match o {
        Some(j) => j.as_bool(),
        None => None,
    }
}

/// `as_u64` through an optional value.
pub fn opt_u64(o: Option<&Json>) -> (r: Option<u64>)
    ensures
        r == ou64(oview(o)),
{
    match o {
        Some(j) => j.as_u64(),
        None => None,
    }
}

/// A copy of an optional value.
pub fn opt_clone(o: Option<&Json>) -> (r: Option<Json>)
    ensures
        match r {
            Some(j) => oview(o) == Some(j@),
            None => oview(o) is None,
        },
{
    match o {
        Some(j) => Some(j.deep_clone()),
        None => None,
    }
}

/// The optional string view of an optional string.
pub open spec fn ostring(o: Option<String>) -> Option<Seq<char>> {
    match o {
        Some(s) => Some(s@),
        None => None,
    }
}

/// The optional view of an optional value.
pub open spec fn ojson(o: Option<Json>) -> Option<JsonV> {
    match o {
        Some(j) => Some(j@),
        None => None,
    }
}

/// An owned copy of an optional string slice.
pub fn opt_owned(o: Option<&str>) -> (r: Option<String>)
    ensures
        match o {
            Some(s) => ostring(r) == Some(s@),
            None => r is None,
        },
{
    match o {
        Some(s) => Some(s.to_owned()),
        None => None,
    }
}

/// A copy of an optional string.
pub fn clone_opt(o: &Option<String>) -> (r: Option<String>)
    ensures
        ostring(r) == ostring(*o),
{
    match o {
        Some(s) => Some(s.as_str().to_owned()),
        None => None,
    }
}

/// `o.unwrap_or(d)` for string slices, as an owned string.
pub fn owned_or(o: Option<&str>, d: &str) -> (r: String)
    ensures
        r@ == (match o {
            Some(s) => s@,
            None => d@,
        }),
{
    match o {
        Some(s) => s.to_owned(),
        None => d.to_owned(),
    }
}

/// The string elements of an array, in order (others are skipped).
pub open spec fn str_items(items: Seq<JsonV>) -> Seq<Seq<char>>
    decreases items.len(),
{
    if items.len() == 0 {
        Seq::empty()
    } else {
        let rest = str_items(items.drop_last());
        match items.last() {
            JsonV::Str(s) => rest.push(s),
            _ => rest,
        }
    }
}

/// The views of a vector of strings.
pub open spec fn strings_view(v: Seq<String>) -> Seq<Seq<char>> {
    v.map_values(|s: String| s@)
}

/// The string elements of an array value, in order.
pub fn string_items(v: &Vec<Json>) -> (r: Vec<String>)
    ensures
        strings_view(r@) == str_items(view_items(v@)),
{
    let mut out: Vec<String> = Vec::new();
    let mut i: usize = 0;
    proof {
        lemma_view_items(v@);
    }
    while i < v.len()
        invariant
            i <= v@.len(),
            view_items(v@).len() == v@.len(),
            forall|k: int| 0 <= k < v@.len() ==> #[trigger] view_items(v@)[k] == view_json(v@[k]),
            strings_view(out@) == str_items(view_items(v@).take(i as int)),
        decreases v@.len() - i,
    {
        let ghost before = out@;
        assert(view_items(v@).take(i + 1).drop_last() =~= view_items(v@).take(i as int));
        assert(view_items(v@).take(i + 1).last() == view_json(v@[i as int]));
        match v[i].as_str() {
            Some(s) => {
                out.push(s.to_owned());
                assert(strings_view(out@) =~= strings_view(before).push(s@));
            },
            None => {},
        }
        i = i + 1;
    }
    assert(view_items(v@).take(v@.len() as int) =~= view_items(v@));
    out
}

/// An empty JSON object.
pub fn empty_object() -> (r: Json)
    ensures
        r@ == JsonV::Object(Seq::empty()),
{
    let v: Vec<(String, Json)> = Vec::new();
    proof {
        assert(view_entries(v@) =~= Seq::empty());
    }
    Json::Object(v)
}

} // verus!

verus! {

/// Appends an entry to the entries of an object under construction.
pub fn push_entry(es: &mut Vec<(String, Json)>, key: &str, value: Json)
    ensures
        view_entries(final(es)@) == view_entries(old(es)@).push((key@, value@)),
{
    let ghost v = value@;
    es.push((key.to_owned(), value));
    proof {
        lemma_view_entries(old(es)@);
        lemma_view_entries(es@);
        assert(view_entries(es@) =~= view_entries(old(es)@).push((key@, v)));
    }
}

/// Appends an item to the items of an array under construction.
pub fn push_item(items: &mut Vec<Json>, value: Json)
    ensures
        view_items(final(items)@) == view_items(old(items)@).push(value@),
{
    let ghost v = value@;
    items.push(value);
    proof {
        lemma_view_items(old(items)@);
        lemma_view_items(items@);
        assert(view_items(items@) =~= view_items(old(items)@).push(v));
    }
}

/// `i` is the first position of an entry with key `k`.
pub open spec fn first_key_at(es: Seq<(Seq<char>, JsonV)>, k: Seq<char>, i: int) -> bool {
    0 <= i < es.len() && es[i].0 == k && forall|j: int| 0 <= j < i ==> es[j].0 != k
}

/// The entries after `k` is set to `v`: the first entry with that key gets
/// the value in place, or the entry is added at the end.
pub open spec fn entries_set(es: Seq<(Seq<char>, JsonV)>, k: Seq<char>, v: JsonV) -> Seq<(Seq<char>, JsonV)> {
    if exists|i: int| first_key_at(es, k, i) {
        es.update(choose|i: int| first_key_at(es, k, i), (k, v))
    } else {
        es.push((k, v))
    }
}

/// `value[key] = v` on an object or `null` (which becomes an object).
pub open spec fn json_set(j: JsonV, k: Seq<char>, v: JsonV) -> JsonV {
    match j {
        JsonV::Object(es) => JsonV::Object(entries_set(es, k, v)),
        _ => JsonV::Object(seq![(k, v)]),
    }
}

/// Whether a value can take a member: an object or `null`.
pub open spec fn settable(j: JsonV) -> bool {
    j is Object || j is Null
}

/// A member that was set reads back as the value it was set to.
pub proof fn lemma_member_read_after_set(j: JsonV, k: Seq<char>, v: JsonV)
    requires
        settable(j),
    ensures
        jget(json_set(j, k, v), k) == Some(v),
{
    match j {
        JsonV::Object(es) => {
            if exists|i: int| first_key_at(es, k, i) {
                let i = choose|i: int| first_key_at(es, k, i);
                let es2 = es.update(i, (k, v));
                assert forall|m: int| 0 <= m < i implies es2[m].0 != k by {
                    assert(es2[m] == es[m]);
                }
                lemma_lookup_first(es2, k, i);
            } else {
                let es2 = es.push((k, v));
                assert forall|m: int| 0 <= m < es.len() implies es2[m].0 != k by {
                    assert(es2[m] == es[m]);
                    if es[m].0 == k {
                        let w = choose|w: int| 0 <= w <= m && es[w].0 == k && forall|x: int| 0 <= x < w ==> es[x].0 != k;
                        lemma_first_exists(es, k, m);
                    }
                }
                lemma_lookup_first(es2, k, es.len() as int);
            }
        },
        _ => {
            lemma_lookup_first(seq![(k, v)], k, 0);
        },
    }
}

proof fn lemma_first_exists(es: Seq<(Seq<char>, JsonV)>, k: Seq<char>, m: int)
    requires
        0 <= m < es.len(),
        es[m].0 == k,
    ensures
        exists|i: int| first_key_at(es, k, i),
    decreases m,
{
    if forall|j: int| 0 <= j < m ==> es[j].0 != k {
        assert(first_key_at(es, k, m));
    } else {
        let j = choose|j: int| 0 <= j < m && es[j].0 == k;
        lemma_first_exists(es, k, j);
    }
}

/// `value[key] = v` (see `json_set`); the value must be an object or
/// `null`.
pub fn set_member(j: Json, key: &str, value: Json) -> (r: Json)
    requires
        settable(j@),
    ensures
        r@ == json_set(j@, key@, value@),
{
    let ghost vv = value@;
    let ghost jv = j@;
    match j {
        Json::Object(mut es) => {
            let ghost ev = view_entries(es@);
            assert(jv == JsonV::Object(ev));
            proof {
                lemma_view_entries(es@);
            }
            let mut i: usize = 0;
            while i < es.len()
                invariant
                    i <= es@.len(),
                    ev == view_entries(es@),
                    ev.len() == es@.len(),
                    forall|m: int| 0 <= m < es@.len() ==> #[trigger] ev[m] == (es@[m].0@, view_json(es@[m].1)),
                    forall|m: int| 0 <= m < i ==> ev[m].0 != key@,
                    vv == value@,
                    jv == j@,
                    jv == JsonV::Object(ev),
                decreases es@.len() - i,
            {
                if crate::text::str_eq(es[i].0.as_str(), key) {
                    assert(ev[i as int].0 == key@);
                    assert(first_key_at(ev, key@, i as int));
                    proof {
                        let c = choose|c: int| first_key_at(ev, key@, c);
                        if c < i {
                            assert(ev[c].0 != key@);
                        } else if c > i {
                            assert(ev[i as int].0 != key@);
                        }
                    }
                    let ghost before = es@;
                    es.set(i, (key.to_owned(), value));
                    proof {
                        lemma_view_entries(es@);
                        assert(view_entries(es@) =~= ev.update(i as int, (key@, vv)));
                    }
                    return Json::Object(es);
                }
                i = i + 1;
            }
            proof {
                if exists|c: int| first_key_at(ev, key@, c) {
                    let c = choose|c: int| first_key_at(ev, key@, c);
                    assert(ev[c].0 != key@);
                }
            }
            push_entry(&mut es, key, value);
            Json::Object(es)
        },
        _ => {
            let mut es: Vec<(String, Json)> = Vec::new();
            push_entry(&mut es, key, value);
            assert(view_entries(es@) =~= seq![(key@, vv)]);
            Json::Object(es)
        },
    }
}

/// A JSON string value.
pub fn jstr(s: &str) -> (r: Json)
    ensures
        r@ == JsonV::Str(s@),
{
    Json::Str(s.to_owned())
}

/// A JSON integer value.
pub fn jnum(n: u64) -> (r: Json)
    ensures
        r@ == JsonV::Number(crate::gateway::dec_text(n as nat)),
{
    Json::Number(crate::gateway::decimal(n))
}

/// A JSON object from its entries.
pub fn jobj(es: Vec<(String, Json)>) -> (r: Json)
    ensures
        r@ == JsonV::Object(view_entries(es@)),
{
    Json::Object(es)
}

/// A copy of a list of strings.
pub fn copy_strings(v: &Vec<String>) -> (r: Vec<String>)
    ensures
        r@.map_values(|s: String| s@) == v@.map_values(|s: String| s@),
{
    let mut out: Vec<String> = Vec::new();
    let mut i: usize = 0;
    while i < v.len()
        invariant
            i <= v@.len(),
            out@.map_values(|s: String| s@) == v@.take(i as int).map_values(|s: String| s@),
        decreases v@.len() - i,
    {
        let ghost before = out@;
        out.push(v[i].as_str().to_owned());
        assert(out@.map_values(|s: String| s@) =~= before.map_values(|s: String| s@).push(v@[i as int]@));
        assert(v@.take(i + 1).map_values(|s: String| s@) =~= v@.take(i as int).map_values(|s: String| s@).push(v@[i as int]@));
        i = i + 1;
    }
    assert(v@.take(v@.len() as int) =~= v@);
    out
}

/// A copy of a list of entries.
pub fn copy_entries(v: &Vec<(String, Json)>) -> (r: Vec<(String, Json)>)
    ensures
        view_entries(r@) == view_entries(v@),
{
    let mut out: Vec<(String, Json)> = Vec::new();
    let mut i: usize = 0;
    proof {
        lemma_view_entries(v@);
    }
    while i < v.len()
        invariant
            i <= v@.len(),
            view_entries(v@).len() == v@.len(),
            forall|k: int| 0 <= k < v@.len() ==> #[trigger] view_entries(v@)[k] == (v@[k].0@, view_json(v@[k].1)),
            view_entries(out@) == view_entries(v@).take(i as int),
        decreases v@.len() - i,
    {
        let ghost before = out@;
        let c = v[i].1.deep_clone();
        out.push((v[i].0.as_str().to_owned(), c));
        proof {
            lemma_view_entries(before);
            lemma_view_entries(out@);
            assert(view_entries(out@) =~= view_entries(before).push(view_entries(v@)[i as int]));
            assert(view_entries(v@).take(i + 1) =~= view_entries(v@).take(i as int).push(view_entries(v@)[i as int]));
        }
        i = i + 1;
    }
    assert(view_entries(v@).take(v@.len() as int) =~= view_entries(v@));
    out
}

} // verus!
