//! Reading YAML text into the library's JSON model.

use vstd::prelude::*;
use crate::json::{Json, JsonV, view_entries, lemma_view_entries, view_items, lemma_view_items};
use crate::auth::{signed_text, signed_decimal_i64};
use crate::float_syntax::{is_float_text, is_float_text_exec, eq_ignore_case};
use crate::mcp_adapter::{sorted_texts, sort_texts};
use crate::config::strs_view;
use crate::text::{str_eq, chars_of, find_char};
use crate::float_syntax::exp_mark;
use crate::json_text::json_text_parse;

verus! {

/// A YAML node as the YAML reader gives it: floats keep their text, a
/// mapping keeps its pairs in order.
#[derive(Debug)]
pub enum YamlNode {
    Real(String),
    Integer(i64),
    Text(String),
    Boolean(bool),
    Array(Vec<YamlNode>),
    Hash(Vec<(YamlNode, YamlNode)>),
    Alias(usize),
    Null,
    BadValue,
}

/// The mathematical view of a YAML node.
pub enum YamlNodeV {
    Real(Seq<char>),
    Integer(i64),
    Text(Seq<char>),
    Boolean(bool),
    Array(Seq<YamlNodeV>),
    Hash(Seq<(YamlNodeV, YamlNodeV)>),
    Alias(usize),
    Null,
    BadValue,
}

pub open spec fn view_yaml_items(s: Seq<YamlNode>) -> Seq<YamlNodeV>
    decreases s,
{
    if s.len() == 0 {
        Seq::empty()
    } else {
        seq![view_yaml(s[0])] + view_yaml_items(s.drop_first())
    }
}

pub open spec fn view_yaml_pairs(s: Seq<(YamlNode, YamlNode)>) -> Seq<(YamlNodeV, YamlNodeV)>
    decreases s,
{
    if s.len() == 0 {
        Seq::empty()
    } else {
        seq![(view_yaml(s[0].0), view_yaml(s[0].1))] + view_yaml_pairs(s.drop_first())
    }
}

pub open spec fn view_yaml(y: YamlNode) -> YamlNodeV
    decreases y,
{
    match y {
        YamlNode::Real(t) => YamlNodeV::Real(t@),
        YamlNode::Integer(i) => YamlNodeV::Integer(i),
        YamlNode::Text(t) => YamlNodeV::Text(t@),
        YamlNode::Boolean(b) => YamlNodeV::Boolean(b),
        YamlNode::Array(v) => YamlNodeV::Array(view_yaml_items(v@)),
        YamlNode::Hash(v) => YamlNodeV::Hash(view_yaml_pairs(v@)),
        YamlNode::Alias(n) => YamlNodeV::Alias(n),
        YamlNode::Null => YamlNodeV::Null,
        YamlNode::BadValue => YamlNodeV::BadValue,
    }
}

impl View for YamlNode {
    type V = YamlNodeV;

    open spec fn view(&self) -> YamlNodeV {
        view_yaml(*self)
    }
}

pub proof fn lemma_view_yaml_items(s: Seq<YamlNode>)
    ensures
        view_yaml_items(s).len() == s.len(),
        forall|i: int| 0 <= i < s.len() ==> #[trigger] view_yaml_items(s)[i] == view_yaml(s[i]),
    decreases s.len(),
{
    if s.len() > 0 {
        lemma_view_yaml_items(s.drop_first());
        assert forall|i: int| 0 <= i < s.len() implies #[trigger] view_yaml_items(s)[i] == view_yaml(s[i]) by {
            if i > 0 {
                assert(s.drop_first()[i - 1] == s[i]);
            }
        }
    }
}

pub proof fn lemma_view_yaml_pairs(s: Seq<(YamlNode, YamlNode)>)
    ensures
        view_yaml_pairs(s).len() == s.len(),
        forall|i: int| 0 <= i < s.len() ==> #[trigger] view_yaml_pairs(s)[i] == (view_yaml(s[i].0), view_yaml(s[i].1)),
    decreases s.len(),
{
    if s.len() > 0 {
        lemma_view_yaml_pairs(s.drop_first());
        assert forall|i: int| 0 <= i < s.len() implies #[trigger] view_yaml_pairs(s)[i] == (view_yaml(s[i].0), view_yaml(s[i].1)) by {
            if i > 0 {
                assert(s.drop_first()[i - 1] == s[i]);
            }
        }
    }
}

/// The YAML reader's own node type.
#[verifier::external_type_specification]
#[verifier::external_body]
pub struct ExYamlNode(yaml_rust2::Yaml);

/// Names what `yaml_rust2::YamlLoader::load_from_str` makes of a text: its
/// documents, node for node in the library's model, or the text of the
/// error it reports.
pub uninterp spec fn yaml_docs_of_text(text: Seq<char>) -> Result<Seq<YamlNodeV>, Seq<char>>;

/// The view of a read.
pub open spec fn yaml_result(r: Result<Vec<YamlNode>, String>) -> Result<Seq<YamlNodeV>, Seq<char>> {
    match r {
        Ok(v) => Ok(view_yaml_items(v@)),
        Err(e) => Err(e@),
    }
}

/// Takes a `yaml_rust2::Yaml` node into the library's model, variant for
/// variant.
#[verifier::external_body]
fn yaml_from_node(y: &yaml_rust2::Yaml) -> YamlNode {
    match y {
        yaml_rust2::Yaml::Real(t) => YamlNode::Real(t.clone()),
        yaml_rust2::Yaml::Integer(i) => YamlNode::Integer(*i),
        yaml_rust2::Yaml::String(s) => YamlNode::Text(s.clone()),
        yaml_rust2::Yaml::Boolean(b) => YamlNode::Boolean(*b),
        yaml_rust2::Yaml::Array(a) => YamlNode::Array(a.iter().map(yaml_from_node).collect()),
        yaml_rust2::Yaml::Hash(h) => YamlNode::Hash(h.iter().map(|(k, v)| (yaml_from_node(k), yaml_from_node(v))).collect()),
        yaml_rust2::Yaml::Alias(n) => YamlNode::Alias(*n),
        yaml_rust2::Yaml::Null => YamlNode::Null,
        yaml_rust2::Yaml::BadValue => YamlNode::BadValue,
    }
}

/// `yaml_rust2::YamlLoader::load_from_str`: the contract claims only that
/// the documents, or the error's text, are what `yaml_docs_of_text` names
/// for the text.
#[verifier::external_body]
fn load_yaml(text: &str) -> (r: Result<Vec<YamlNode>, String>)
    ensures
        yaml_result(r) == yaml_docs_of_text(text@),
{
    match yaml_rust2::YamlLoader::load_from_str(text) {
        Ok(docs) => Ok(docs.iter().map(yaml_from_node).collect()),
        Err(e) => Err(e.to_string()),
    }
}

// ── YAML to JSON ──────────────────────────────────────────────────────────

/// True for the float texts that name no finite number (infinities and
/// not-a-number), which the JSON writer turns into `null`.
pub open spec fn non_finite_text(f: Seq<char>) -> bool {
    let t = if f.len() > 0 && (f[0] == '+' || f[0] == '-') {
        f.skip(1)
    } else {
        f
    };
    eq_ignore_case(t, "inf"@) || eq_ignore_case(t, "infinity"@) || eq_ignore_case(t, "nan"@)
}

/// An integer part without leading zeros (one digit is kept; an empty one
/// reads as `0`).
pub open spec fn strip_zeros(d: Seq<char>) -> Seq<char>
    decreases d.len(),
{
    if d.len() == 0 {
        "0"@
    } else if d.len() > 1 && d[0] == '0' {
        strip_zeros(d.drop_first())
    } else {
        d
    }
}

/// A float's digits (without sign or exponent) in JSON form: no leading
/// zeros, and at least one digit on each side of a point.
pub open spec fn json_mantissa(m: Seq<char>) -> Seq<char> {
    match find_char(m, '.') {
        Some(d) => strip_zeros(m.take(d)) + "."@ + (if m.skip(d + 1).len() == 0 {
            "0"@
        } else {
            m.skip(d + 1)
        }),
        None => strip_zeros(m),
    }
}

/// A float text that Rust reads, rewritten as JSON number text: no `+`
/// sign, no leading zeros, digits on both sides of a point; the exponent
/// is kept.
pub open spec fn json_float_text(f: Seq<char>) -> Seq<char> {
    let s0 = if f.len() > 0 && f[0] == '+' { f.skip(1) } else { f };
    let neg = s0.len() > 0 && s0[0] == '-';
    let body = if neg { s0.skip(1) } else { s0 };
    let m = match exp_mark(body) {
        Some(k) => body.take(k),
        None => body,
    };
    let e = match exp_mark(body) {
        Some(k) => body.skip(k),
        None => Seq::empty(),
    };
    (if neg { "-"@ } else { Seq::empty() }) + json_mantissa(m) + e
}

/// The JSON for a YAML float text: for a text that reads as a float, the
/// number the JSON writer prints for its value (read through the JSON
/// reader from its JSON form, see `json_text_parse`), or `null` for an
/// infinity, a not-a-number or a value out of range; else the text as a
/// string.
pub open spec fn real_json(f: Seq<char>) -> JsonV {
    if is_float_text(f) {
        if non_finite_text(f) {
            JsonV::Null
        } else {
            match json_text_parse(json_float_text(f)) {
                Ok(v) => v,
                Err(_) => JsonV::Null,
            }
        }
    } else {
        JsonV::Str(f)
    }
}

/// The key text of a mapping key: a string, or an integer's decimal text;
/// other keys are skipped.
pub open spec fn key_text(k: YamlNodeV) -> Option<Seq<char>> {
    match k {
        YamlNodeV::Text(s) => Some(s),
        YamlNodeV::Integer(i) => Some(signed_text(i as int)),
        _ => None,
    }
}

/// The keys of a list of pairs, each once, in the order they first come.
pub open spec fn distinct_keys(ps: Seq<(Seq<char>, JsonV)>) -> Seq<Seq<char>>
    decreases ps.len(),
{
    if ps.len() == 0 {
        Seq::empty()
    } else {
        let ks = distinct_keys(ps.drop_last());
        if ks.contains(ps.last().0) {
            ks
        } else {
            ks.push(ps.last().0)
        }
    }
}

/// The value of the last pair with key `k`.
pub open spec fn last_value(ps: Seq<(Seq<char>, JsonV)>, k: Seq<char>) -> JsonV
    decreases ps.len(),
{
    if ps.len() == 0 {
        JsonV::Null
    } else if ps.last().0 == k {
        ps.last().1
    } else {
        last_value(ps.drop_last(), k)
    }
}

/// The JSON object that inserting the pairs in turn into a JSON map gives:
/// each key once, in ascending order, with its last value.
pub open spec fn object_of_pairs(ps: Seq<(Seq<char>, JsonV)>) -> Seq<(Seq<char>, JsonV)> {
    let ks = sorted_texts(distinct_keys(ps));
    Seq::new(ks.len(), |i: int| (ks[i], last_value(ps, ks[i])))
}

pub open spec fn yaml_items_json(s: Seq<YamlNodeV>) -> Seq<JsonV>
    decreases s,
{
    if s.len() == 0 {
        Seq::empty()
    } else {
        yaml_items_json(s.drop_last()).push(yaml_json(s.last()))
    }
}

/// The keyed pairs of a mapping, values taken into JSON, keys that are
/// neither strings nor integers skipped.
pub open spec fn yaml_pairs_json(s: Seq<(YamlNodeV, YamlNodeV)>) -> Seq<(Seq<char>, JsonV)>
    decreases s,
{
    if s.len() == 0 {
        Seq::empty()
    } else {
        let front = yaml_pairs_json(s.drop_last());
        match key_text(s.last().0) {
            Some(k) => front.push((k, yaml_json(s.last().1))),
            None => front,
        }
    }
}

/// The JSON value of a YAML node: scalars map to their JSON kinds (see
/// `real_json` for floats), sequences to arrays, mappings to objects (see
/// `object_of_pairs`), aliases and bad values to `null`.
pub open spec fn yaml_json(y: YamlNodeV) -> JsonV
    decreases y,
{
    match y {
        YamlNodeV::Null => JsonV::Null,
        YamlNodeV::Boolean(b) => JsonV::Bool(b),
        YamlNodeV::Integer(i) => JsonV::Number(signed_text(i as int)),
        YamlNodeV::Real(f) => real_json(f),
        YamlNodeV::Text(s) => JsonV::Str(s),
        YamlNodeV::Array(items) => JsonV::Array(yaml_items_json(items)),
        YamlNodeV::Hash(ps) => JsonV::Object(object_of_pairs(yaml_pairs_json(ps))),
        YamlNodeV::Alias(_) => JsonV::Null,
        YamlNodeV::BadValue => JsonV::Null,
    }
}

// ── Executable conversion ─────────────────────────────────────────────────

fn non_finite_exec(f: &str) -> (r: bool)
    ensures
        r == non_finite_text(f@),
{
    let c = chars_of(f);
    let t: Vec<char> = if c.len() > 0 && (c[0] == '+' || c[0] == '-') {
        crate::text::sub_chars(c.as_slice(), 1, c.len())
    } else {
        crate::text::sub_chars(c.as_slice(), 0, c.len())
    };
    proof {
        if c@.len() > 0 && (c@[0] == '+' || c@[0] == '-') {
            assert(t@ =~= f@.skip(1));
        } else {
            assert(t@ =~= f@);
        }
    }
    crate::float_syntax::eq_ignore_case_exec(t.as_slice(), "inf") || crate::float_syntax::eq_ignore_case_exec(t.as_slice(), "infinity")
        || crate::float_syntax::eq_ignore_case_exec(t.as_slice(), "nan")
}

fn strip_zeros_exec(d: &Vec<char>) -> (r: Vec<char>)
    ensures
        r@ == strip_zeros(d@),
{
    if d.len() == 0 {
        let r = chars_of("0");
        proof {
            reveal_strlit("0");
        }
        return r;
    }
    let mut i: usize = 0;
    assert(d@.skip(0) =~= d@);
    let n = d.len();
    while i < n - 1 && d[i] == '0'
        invariant
            n == d@.len(),
            i < d@.len(),
            strip_zeros(d@) == strip_zeros(d@.skip(i as int)),
        decreases d@.len() - i,
    {
        assert(d@.skip(i as int).drop_first() =~= d@.skip(i + 1));
        i = i + 1;
    }
    let r = crate::text::sub_chars(d.as_slice(), i, d.len());
    assert(r@ =~= d@.skip(i as int));
    r
}

fn exp_mark_exec(t: &Vec<char>) -> (r: Option<usize>)
    ensures
        match r {
            Some(k) => exp_mark(t@) == Some(k as int) && k < t@.len(),
            None => exp_mark(t@) is None,
        },
{
    let mut i: usize = 0;
    while i < t.len()
        invariant
            i <= t@.len(),
            forall|j: int| 0 <= j < i ==> !(t@[j] == 'e' || t@[j] == 'E'),
        decreases t@.len() - i,
    {
        if t[i] == 'e' || t[i] == 'E' {
            proof {
                let w = choose|x: int| 0 <= x < t@.len() && (t@[x] == 'e' || t@[x] == 'E') && forall|j: int| 0 <= j < x ==> !(t@[j] == 'e' || t@[j] == 'E');
                if w > i {
                    assert(!(t@[i as int] == 'e' || t@[i as int] == 'E'));
                }
            }
            return Some(i);
        }
        i = i + 1;
    }
    None
}

fn json_mantissa_exec(m: &Vec<char>) -> (r: Vec<char>)
    ensures
        r@ == json_mantissa(m@),
{
    match crate::text::find_char_exec(m.as_slice(), '.') {
        Some(d) => {
            let ml = m.len();
            assert(d < ml);
            let ip = crate::text::sub_chars(m.as_slice(), 0, d);
            let fp = crate::text::sub_chars(m.as_slice(), d + 1, m.len());
            assert(ip@ =~= m@.take(d as int));
            assert(fp@ =~= m@.skip(d + 1));
            let mut r = strip_zeros_exec(&ip);
            r.push('.');
            if fp.len() == 0 {
                r.push('0');
            } else {
                crate::text::append_chars(&mut r, fp.as_slice());
            }
            proof {
                reveal_strlit(".");
                reveal_strlit("0");
            }
            assert(r@ =~= json_mantissa(m@));
            r
        },
        None => strip_zeros_exec(m),
    }
}

/// The JSON number text of a float text (see `json_float_text`).
pub fn json_float_text_exec(f: &str) -> (r: String)
    ensures
        r@ == json_float_text(f@),
{
    let c = chars_of(f);
    let s0 = if c.len() > 0 && c[0] == '+' {
        crate::text::sub_chars(c.as_slice(), 1, c.len())
    } else {
        crate::text::sub_chars(c.as_slice(), 0, c.len())
    };
    assert(s0@ =~= (if f@.len() > 0 && f@[0] == '+' { f@.skip(1) } else { f@ }));
    let neg = s0.len() > 0 && s0[0] == '-';
    let body = if neg {
        crate::text::sub_chars(s0.as_slice(), 1, s0.len())
    } else {
        crate::text::sub_chars(s0.as_slice(), 0, s0.len())
    };
    assert(body@ =~= (if neg { s0@.skip(1) } else { s0@ }));
    let (m, e) = match exp_mark_exec(&body) {
        Some(k) => (crate::text::sub_chars(body.as_slice(), 0, k), crate::text::sub_chars(body.as_slice(), k, body.len())),
        None => (crate::text::sub_chars(body.as_slice(), 0, body.len()), Vec::new()),
    };
    assert(m@ =~= (match exp_mark(body@) { Some(k) => body@.take(k), None => body@ }));
    assert(e@ =~= (match exp_mark(body@) { Some(k) => body@.skip(k), None => Seq::<char>::empty() }));
    let mut out: Vec<char> = Vec::new();
    if neg {
        out.push('-');
    }
    let mm = json_mantissa_exec(&m);
    crate::text::append_chars(&mut out, mm.as_slice());
    crate::text::append_chars(&mut out, e.as_slice());
    proof {
        reveal_strlit("-");
    }
    assert(out@ =~= json_float_text(f@));
    crate::text::string_from_chars(out.as_slice())
}

fn real_json_exec(f: &str) -> (r: Json)
    ensures
        r@ == real_json(f@),
{
    if is_float_text_exec(f) {
        if non_finite_exec(f) {
            Json::Null
        } else {
            let t = json_float_text_exec(f);
            match crate::json_text::parse_json(t.as_str()) {
                Ok(v) => v,
                Err(_) => Json::Null,
            }
        }
    } else {
        Json::Str(f.to_owned())
    }
}

fn key_text_exec(k: &YamlNode) -> (r: Option<String>)
    ensures
        match r {
            Some(t) => key_text(k@) == Some(t@),
            None => key_text(k@) is None,
        },
{
    match k {
        YamlNode::Text(s) => Some(s.clone()),
        YamlNode::Integer(i) => Some(signed_decimal_i64(*i)),
        _ => None,
    }
}

fn has_text(ks: &Vec<String>, k: &str) -> (r: bool)
    ensures
        r == strs_view(ks@).contains(k@),
{
    let ghost kv = strs_view(ks@);
    let mut i: usize = 0;
    while i < ks.len()
        invariant
            kv == strs_view(ks@),
            i <= ks@.len(),
            forall|q: int| 0 <= q < i ==> kv[q] != k@,
        decreases ks@.len() - i,
    {
        if str_eq(ks[i].as_str(), k) {
            assert(kv[i as int] == k@);
            return true;
        }
        i = i + 1;
    }
    false
}

fn last_value_exec(ps: &Vec<(String, Json)>, k: &str) -> (r: Json)
    ensures
        r@ == last_value(view_entries(ps@), k@),
{
    let ghost pv = view_entries(ps@);
    proof {
        lemma_view_entries(ps@);
    }
    let mut m: usize = ps.len();
    assert(pv.take(m as int) =~= pv);
    while m > 0
        invariant
            pv == view_entries(ps@),
            pv.len() == ps@.len(),
            forall|q: int| 0 <= q < ps@.len() ==> #[trigger] pv[q] == (ps@[q].0@, ps@[q].1@),
            m <= ps@.len(),
            last_value(pv, k@) == last_value(pv.take(m as int), k@),
        decreases m,
    {
        assert(pv.take(m as int).drop_last() =~= pv.take(m - 1));
        assert(pv.take(m as int).last() == pv[m - 1]);
        if str_eq(ps[m - 1].0.as_str(), k) {
            return ps[m - 1].1.deep_clone();
        }
        m = m - 1;
    }
    Json::Null
}

/// The JSON object entries that inserting `ps` in turn into a JSON map
/// gives (see `object_of_pairs`).
pub fn object_from_pairs(ps: &Vec<(String, Json)>) -> (r: Vec<(String, Json)>)
    ensures
        view_entries(r@) == object_of_pairs(view_entries(ps@)),
{
    let ghost pv = view_entries(ps@);
    proof {
        lemma_view_entries(ps@);
    }
    let mut ks: Vec<String> = Vec::new();
    let mut i: usize = 0;
    while i < ps.len()
        invariant
            pv == view_entries(ps@),
            pv.len() == ps@.len(),
            forall|q: int| 0 <= q < ps@.len() ==> #[trigger] pv[q] == (ps@[q].0@, ps@[q].1@),
            i <= ps@.len(),
            strs_view(ks@) == distinct_keys(pv.take(i as int)),
        decreases ps@.len() - i,
    {
        assert(pv.take(i + 1).drop_last() =~= pv.take(i as int));
        assert(pv.take(i + 1).last() == pv[i as int]);
        let ghost before = strs_view(ks@);
        if !has_text(&ks, ps[i].0.as_str()) {
            ks.push(ps[i].0.clone());
            assert(strs_view(ks@) =~= before.push(pv[i as int].0));
        }
        i = i + 1;
    }
    assert(pv.take(ps@.len() as int) =~= pv);
    let sorted = sort_texts(&ks);
    let ghost sk = strs_view(sorted@);
    let mut out: Vec<(String, Json)> = Vec::new();
    let mut j: usize = 0;
    while j < sorted.len()
        invariant
            pv == view_entries(ps@),
            sk == strs_view(sorted@),
            sk == sorted_texts(distinct_keys(pv)),
            j <= sorted@.len(),
            view_entries(out@) == object_of_pairs(pv).take(j as int),
        decreases sorted@.len() - j,
    {
        let v = last_value_exec(ps, sorted[j].as_str());
        let ghost old_out = out@;
        let key = sorted[j].clone();
        assert(key@ == sk[j as int]);
        out.push((key, v));
        proof {
            lemma_view_entries(old_out);
            lemma_view_entries(out@);
            assert(view_entries(out@) =~= view_entries(old_out).push((sk[j as int], last_value(pv, sk[j as int]))));
            assert(object_of_pairs(pv).take(j + 1) =~= object_of_pairs(pv).take(j as int).push(
                (sk[j as int], last_value(pv, sk[j as int])),
            ));
        }
        j = j + 1;
    }
    assert(object_of_pairs(pv).take(sorted@.len() as int) =~= object_of_pairs(pv));
    out
}

fn yaml_to_json(y: &YamlNode) -> (r: Json)
    ensures
        r@ == yaml_json(y@),
    decreases y,
{
    match y {
        YamlNode::Null => Json::Null,
        YamlNode::Boolean(b) => Json::Bool(*b),
        YamlNode::Integer(i) => Json::Number(signed_decimal_i64(*i)),
        YamlNode::Real(f) => real_json_exec(f.as_str()),
        YamlNode::Text(t) => Json::Str(t.clone()),
        YamlNode::Alias(_) => Json::Null,
        YamlNode::BadValue => Json::Null,
        YamlNode::Array(v) => {
            let ghost iv = view_yaml_items(v@);
            proof {
                lemma_view_yaml_items(v@);
            }
            let mut out: Vec<Json> = Vec::new();
            let mut i: usize = 0;
            while i < v.len()
                invariant
                    *y == YamlNode::Array(*v),
                    iv == view_yaml_items(v@),
                    iv.len() == v@.len(),
                    forall|k: int| 0 <= k < v@.len() ==> #[trigger] iv[k] == view_yaml(v@[k]),
                    i <= v@.len(),
                    out@.len() == i,
                    forall|k: int| 0 <= k < i ==> #[trigger] out@[k]@ == yaml_items_json(iv.take(i as int))[k],
                    yaml_items_json(iv.take(i as int)).len() == i,
                decreases v@.len() - i,
            {
                assert((*y)->Array_0 == *v && decreases_to!(*y => (*y)->Array_0));
                assert(decreases_to!(*v => v@));
                assert(decreases_to!(v@ => v@[i as int]));
                let c = yaml_to_json(&v[i]);
                assert(iv.take(i + 1).drop_last() =~= iv.take(i as int));
                assert(iv.take(i + 1).last() == iv[i as int]);
                out.push(c);
                i = i + 1;
            }
            proof {
                assert(iv.take(v@.len() as int) =~= iv);
                lemma_view_items(out@);
                assert forall|k: int| 0 <= k < out@.len() implies #[trigger] view_items(out@)[k] == yaml_items_json(iv)[k] by {
                    assert(out@[k]@ == yaml_items_json(iv.take(i as int))[k]);
                }
                assert(view_items(out@) =~= yaml_items_json(iv));
            }
            Json::Array(out)
        },
        YamlNode::Hash(v) => {
            let ghost pv = view_yaml_pairs(v@);
            proof {
                lemma_view_yaml_pairs(v@);
            }
            let mut ps: Vec<(String, Json)> = Vec::new();
            let mut i: usize = 0;
            while i < v.len()
                invariant
                    *y == YamlNode::Hash(*v),
                    pv == view_yaml_pairs(v@),
                    pv.len() == v@.len(),
                    forall|k: int| 0 <= k < v@.len() ==> #[trigger] pv[k] == (view_yaml(v@[k].0), view_yaml(v@[k].1)),
                    i <= v@.len(),
                    view_entries(ps@) == yaml_pairs_json(pv.take(i as int)),
                decreases v@.len() - i,
            {
                assert(pv.take(i + 1).drop_last() =~= pv.take(i as int));
                assert(pv.take(i + 1).last() == pv[i as int]);
                match key_text_exec(&v[i].0) {
                    Some(k) => {
                        assert((*y)->Hash_0 == *v && decreases_to!(*y => (*y)->Hash_0));
                        assert(decreases_to!(*v => v@));
                        assert(decreases_to!(v@ => v@[i as int]));
                        assert(decreases_to!(v@[i as int] => v@[i as int].1));
                        let c = yaml_to_json(&v[i].1);
                        let ghost old_ps = ps@;
                        let ghost kv = k@;
                        ps.push((k, c));
                        proof {
                            lemma_view_entries(old_ps);
                            lemma_view_entries(ps@);
                            assert(view_entries(ps@) =~= view_entries(old_ps).push((kv, yaml_json(pv[i as int].1))));
                        }
                    },
                    None => {},
                }
                i = i + 1;
            }
            proof {
                assert(pv.take(v@.len() as int) =~= pv);
            }
            Json::Object(object_from_pairs(&ps))
        },
    }
}

/// The JSON value of a YAML node (see `yaml_json`); reading never fails.
pub fn yaml_value_to_json(y: &YamlNode) -> (r: Result<Json, String>)
    ensures
        r matches Ok(j) && j@ == yaml_json(y@),
{
    Ok(yaml_to_json(y))
}

/// The JSON that a YAML text reads as: its first document (see
/// `yaml_json`), an empty object when it has none, or the reader's error
/// text after `YAML parse error: ` (see `yaml_docs_of_text`).
pub open spec fn yaml_text_json(text: Seq<char>) -> Result<JsonV, Seq<char>> {
    match yaml_docs_of_text(text) {
        Err(e) => Err("YAML parse error: "@ + e),
        Ok(docs) => if docs.len() == 0 {
            Ok(JsonV::Object(Seq::empty()))
        } else {
            Ok(yaml_json(docs[0]))
        },
    }
}

/// Reads a YAML text into JSON (see `yaml_text_json`).
pub fn serde_yaml_to_json(content: &str) -> (r: Result<Json, String>)
    ensures
        crate::json_text::json_result(r) == yaml_text_json(content@),
{
    match load_yaml(content) {
        Err(e) => Err("YAML parse error: ".to_owned().concat(e.as_str())),
        Ok(docs) => {
            proof {
                lemma_view_yaml_items(docs@);
            }
            if docs.len() == 0 {
                let es: Vec<(String, Json)> = Vec::new();
                assert(view_entries(es@) =~= Seq::<(Seq<char>, JsonV)>::empty());
                Ok(Json::Object(es))
            } else {
                Ok(yaml_to_json(&docs[0]))
            }
        },
    }
}

} // verus!
