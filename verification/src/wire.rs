//! Reading the fields of a JSON object into typed records, with the rules of
//! a derived deserializer: a required field must be present and of its type,
//! an optional field may be absent or `null`, a defaulted field may be absent,
//! and fields the record does not name are ignored.

use vstd::prelude::*;
use crate::json::{Json, JsonV, jget, ou64, str_items, strings_view, ostring, ojson, view_items,
    lemma_view_items, string_items};

verus! {

/// Message for a required field that is absent.
pub open spec fn missing_msg(name: Seq<char>) -> Seq<char> {
    "missing field `"@ + name + "`"@
}

/// Names what `format!("{:?}", s)` gives for a string: the text in double
/// quotes with the characters that `char::escape_debug` escapes escaped.
pub uninterp spec fn debug_text(s: Seq<char>) -> Seq<char>;

/// `<str as Debug>::fmt`, through `format!`: the contract claims only that
/// the result is what `debug_text` names for the text.
#[verifier::external_body]
fn debug_quoted(s: &str) -> (r: String)
    ensures
        r@ == debug_text(s@),
{
    format!("{:?}", s)
}

/// True when a number's text is an integer's (no fraction or exponent).
pub open spec fn is_int_text(t: Seq<char>) -> bool {
    forall|i: int| 0 <= i < t.len() ==> (#[trigger] t[i]) != '.' && t[i] != 'e' && t[i] != 'E'
}

/// How the reader describes a value it did not expect.
pub open spec fn unexpected(v: JsonV) -> Seq<char> {
    match v {
        JsonV::Null => "null"@,
        JsonV::Bool(b) => if b { "boolean `true`"@ } else { "boolean `false`"@ },
        JsonV::Number(t) => if is_int_text(t) {
            "integer `"@ + t + "`"@
        } else {
            "floating point `"@ + t + "`"@
        },
        JsonV::Str(s) => "string "@ + debug_text(s),
        JsonV::Array(_) => "sequence"@,
        JsonV::Object(_) => "map"@,
    }
}

/// Message for a value of the wrong kind where `expected` was wanted.
pub open spec fn type_msg(v: JsonV, expected: Seq<char>) -> Seq<char> {
    "invalid type: "@ + unexpected(v) + ", expected "@ + expected
}

/// Message for a value that is no integer of type `ty`: an integer out of
/// its range is an invalid value, anything else an invalid type.
pub open spec fn number_msg(v: JsonV, ty: Seq<char>) -> Seq<char> {
    match v {
        JsonV::Number(t) => if is_int_text(t) {
            "invalid value: integer `"@ + t + "`, expected "@ + ty
        } else {
            type_msg(v, ty)
        },
        _ => type_msg(v, ty),
    }
}

/// Message for a record named `record` read from a value that is not an
/// object.
pub open spec fn not_object_msg(v: JsonV, record: Seq<char>) -> Seq<char> {
    type_msg(v, "struct "@ + record)
}

/// The names of an enum's variants as the reader lists them:
/// `` `a`, `b` ``.
pub open spec fn variant_listing(ns: Seq<Seq<char>>) -> Seq<char>
    decreases ns.len(),
{
    if ns.len() == 0 {
        Seq::empty()
    } else if ns.len() == 1 {
        "`"@ + ns[0] + "`"@
    } else {
        variant_listing(ns.drop_last()) + ", `"@ + ns.last() + "`"@
    }
}

/// Message for a variant name that the enum does not have.
pub open spec fn unknown_variant_msg(s: Seq<char>, ns: Seq<Seq<char>>) -> Seq<char> {
    "unknown variant `"@ + s + "`, expected one of "@ + variant_listing(ns)
}

/// The error met when a unit variant of an enum whose variants are named
/// `ns` is read from `v` (a name, or an object whose one entry maps a name
/// to `null`), if any.
pub open spec fn unit_variant_error(v: JsonV, ns: Seq<Seq<char>>) -> Option<Seq<char>> {
    match v {
        JsonV::Str(s) => if ns.contains(s) {
            None
        } else {
            Some(unknown_variant_msg(s, ns))
        },
        JsonV::Object(es) => if es.len() != 1 {
            Some("invalid value: map, expected map with a single key"@)
        } else if !ns.contains(es[0].0) {
            Some(unknown_variant_msg(es[0].0, ns))
        } else if !(es[0].1 is Null) {
            Some(type_msg(es[0].1, "unit"@))
        } else {
            None
        },
        _ => Some(type_msg(v, "string or map"@)),
    }
}

/// The views of a list of names.
pub open spec fn names_view(ns: Seq<&str>) -> Seq<Seq<char>> {
    ns.map_values(|n: &str| n@)
}

fn has_name(ns: &Vec<&str>, s: &str) -> (r: bool)
    ensures
        r == names_view(ns@).contains(s@),
{
    let ghost nv = names_view(ns@);
    let mut i: usize = 0;
    while i < ns.len()
        invariant
            nv == names_view(ns@),
            i <= ns@.len(),
            forall|k: int| 0 <= k < i ==> nv[k] != s@,
        decreases ns@.len() - i,
    {
        if crate::text::str_eq(ns[i], s) {
            assert(nv[i as int] == s@);
            return true;
        }
        i = i + 1;
    }
    false
}

fn listing_text(ns: &Vec<&str>) -> (r: String)
    ensures
        r@ == variant_listing(names_view(ns@)),
{
    let ghost nv = names_view(ns@);
    let mut out = String::new();
    let mut i: usize = 0;
    proof {
        assert(nv.take(0) =~= Seq::<Seq<char>>::empty());
    }
    while i < ns.len()
        invariant
            nv == names_view(ns@),
            nv.len() == ns@.len(),
            i <= ns@.len(),
            out@ == variant_listing(nv.take(i as int)),
        decreases ns@.len() - i,
    {
        assert(nv.take(i + 1).drop_last() =~= nv.take(i as int));
        assert(nv.take(i + 1).last() == nv[i as int]);
        if i == 0 {
            out = "`".to_owned().concat(ns[i]).concat("`");
            proof {
                assert(nv.take(1)[0] == nv[0]);
            }
        } else {
            out = out.concat(", `").concat(ns[i]).concat("`");
        }
        i = i + 1;
    }
    assert(nv.take(ns@.len() as int) =~= nv);
    out
}

/// The error met when a unit variant is read from `v` (see
/// `unit_variant_error`), if any.
pub fn unit_variant_check(v: &Json, ns: &Vec<&str>) -> (r: Option<String>)
    ensures
        match r {
            Some(e) => unit_variant_error(v@, names_view(ns@)) == Some(e@),
            None => unit_variant_error(v@, names_view(ns@)) is None,
        },
{
    match v {
        Json::Str(s) => if has_name(ns, s.as_str()) {
            None
        } else {
            Some("unknown variant `".to_owned().concat(s.as_str()).concat("`, expected one of ").concat(listing_text(ns).as_str()))
        },
        Json::Object(es) => {
            proof {
                crate::json::lemma_view_entries(es@);
            }
            if es.len() != 1 {
                Some("invalid value: map, expected map with a single key".to_owned())
            } else if !has_name(ns, es[0].0.as_str()) {
                Some("unknown variant `".to_owned().concat(es[0].0.as_str()).concat("`, expected one of ").concat(listing_text(ns).as_str()))
            } else if !es[0].1.is_null() {
                Some(type_error(&es[0].1, "unit"))
            } else {
                None
            }
        },
        _ => Some(type_error(v, "string or map")),
    }
}

/// The first element that is not a string.
pub open spec fn first_non_str(items: Seq<JsonV>) -> Option<int> {
    if exists|i: int| 0 <= i < items.len() && !((#[trigger] items[i]) is Str) {
        Some(
            choose|i: int|
                0 <= i < items.len() && !((#[trigger] items[i]) is Str) && forall|k: int|
                    0 <= k < i ==> (#[trigger] items[k]) is Str,
        )
    } else {
        None
    }
}

/// The error of a field result, if any.
pub open spec fn err_of<T>(r: Result<T, Seq<char>>) -> Option<Seq<char>> {
    match r {
        Ok(_) => None,
        Err(e) => Some(e),
    }
}

/// The first error of two, in order.
pub open spec fn first_err(a: Option<Seq<char>>, b: Option<Seq<char>>) -> Option<Seq<char>> {
    match a {
        Some(e) => Some(e),
        None => b,
    }
}

/// A required string.
pub open spec fn f_str(o: Option<JsonV>, name: Seq<char>) -> Result<Seq<char>, Seq<char>> {
    match o {
        Some(JsonV::Str(s)) => Ok(s),
        None => Err(missing_msg(name)),
        Some(v) => Err(type_msg(v, "a string"@)),
    }
}

/// An optional string (`null` or absent is `None`).
pub open spec fn f_ostr(o: Option<JsonV>, name: Seq<char>) -> Result<Option<Seq<char>>, Seq<char>> {
    match o {
        None => Ok(None),
        Some(JsonV::Null) => Ok(None),
        Some(JsonV::Str(s)) => Ok(Some(s)),
        Some(v) => Err(type_msg(v, "a string"@)),
    }
}

/// A string that is empty when absent.
pub open spec fn f_dstr(o: Option<JsonV>, name: Seq<char>) -> Result<Seq<char>, Seq<char>> {
    match o {
        None => Ok(Seq::empty()),
        Some(JsonV::Str(s)) => Ok(s),
        Some(v) => Err(type_msg(v, "a string"@)),
    }
}

/// A boolean that is `false` when absent.
pub open spec fn f_dbool(o: Option<JsonV>, name: Seq<char>) -> Result<bool, Seq<char>> {
    match o {
        None => Ok(false),
        Some(JsonV::Bool(b)) => Ok(b),
        Some(v) => Err(type_msg(v, "a boolean"@)),
    }
}

/// An optional boolean.
pub open spec fn f_obool(o: Option<JsonV>, name: Seq<char>) -> Result<Option<bool>, Seq<char>> {
    match o {
        None => Ok(None),
        Some(JsonV::Null) => Ok(None),
        Some(JsonV::Bool(b)) => Ok(Some(b)),
        Some(v) => Err(type_msg(v, "a boolean"@)),
    }
}

/// An optional unsigned integer within `u64`.
pub open spec fn f_ou64(o: Option<JsonV>, name: Seq<char>) -> Result<Option<u64>, Seq<char>> {
    match o {
        None => Ok(None),
        Some(JsonV::Null) => Ok(None),
        Some(v) => match ou64(Some(v)) {
            Some(n) => Ok(Some(n)),
            None => Err(number_msg(v, "u64"@)),
        },
    }
}

/// A required unsigned integer within `u32`.
pub open spec fn f_u32(o: Option<JsonV>, name: Seq<char>) -> Result<u32, Seq<char>> {
    match o {
        None => Err(missing_msg(name)),
        Some(v) => match ou64(Some(v)) {
            Some(n) => if n <= u32::MAX {
                Ok(n as u32)
            } else {
                Err(number_msg(v, "u32"@))
            },
            None => Err(number_msg(v, "u32"@)),
        },
    }
}

/// An optional unsigned integer within `u32`.
pub open spec fn f_ou32(o: Option<JsonV>, name: Seq<char>) -> Result<Option<u32>, Seq<char>> {
    match o {
        None => Ok(None),
        Some(JsonV::Null) => Ok(None),
        Some(v) => match f_u32(Some(v), name) {
            Ok(n) => Ok(Some(n)),
            Err(e) => Err(e),
        },
    }
}

/// An unsigned integer within `usize`; `dflt` says whether absence means 0.
pub open spec fn f_usize(o: Option<JsonV>, name: Seq<char>, dflt: bool) -> Result<usize, Seq<char>> {
    match o {
        None => if dflt {
            Ok(0)
        } else {
            Err(missing_msg(name))
        },
        Some(v) => match ou64(Some(v)) {
            Some(n) => if n <= usize::MAX {
                Ok(n as usize)
            } else {
                Err(number_msg(v, "usize"@))
            },
            None => Err(number_msg(v, "usize"@)),
        },
    }
}

/// An optional number, kept as its decimal text.
pub open spec fn f_onum(o: Option<JsonV>, name: Seq<char>) -> Result<Option<Seq<char>>, Seq<char>> {
    match o {
        None => Ok(None),
        Some(JsonV::Null) => Ok(None),
        Some(JsonV::Number(t)) => Ok(Some(t)),
        Some(v) => Err(type_msg(v, "f64"@)),
    }
}

/// Any value; `null` when absent.
pub open spec fn f_djson(o: Option<JsonV>) -> JsonV {
    match o {
        None => JsonV::Null,
        Some(v) => v,
    }
}

/// Any value but `null`.
pub open spec fn f_ojson(o: Option<JsonV>) -> Option<JsonV> {
    match o {
        None => None,
        Some(JsonV::Null) => None,
        Some(v) => Some(v),
    }
}

/// An array of strings; empty when absent.
pub open spec fn f_dstrs(o: Option<JsonV>, name: Seq<char>) -> Result<Seq<Seq<char>>, Seq<char>> {
    match o {
        None => Ok(Seq::empty()),
        Some(JsonV::Array(items)) => match first_non_str(items) {
            None => Ok(str_items(items)),
            Some(k) => Err(type_msg(items[k], "a string"@)),
        },
        Some(v) => Err(type_msg(v, "a sequence"@)),
    }
}

/// An array of any values; `dflt` says whether absence means empty.
pub open spec fn f_jsons(o: Option<JsonV>, name: Seq<char>, dflt: bool) -> Result<Seq<JsonV>, Seq<char>> {
    match o {
        None => if dflt {
            Ok(Seq::empty())
        } else {
            Err(missing_msg(name))
        },
        Some(JsonV::Array(items)) => Ok(items),
        Some(v) => Err(type_msg(v, "a sequence"@)),
    }
}

pub fn missing_error(name: &str) -> (r: String)
    ensures
        r@ == missing_msg(name@),
{
    "missing field `".to_owned().concat(name).concat("`")
}

fn is_int_text_exec(t: &str) -> (r: bool)
    ensures
        r == is_int_text(t@),
{
    let c = crate::text::chars_of(t);
    let mut i: usize = 0;
    while i < c.len()
        invariant
            c@ == t@,
            i <= c@.len(),
            forall|k: int| 0 <= k < i ==> (#[trigger] c@[k]) != '.' && c@[k] != 'e' && c@[k] != 'E',
        decreases c@.len() - i,
    {
        if c[i] == '.' || c[i] == 'e' || c[i] == 'E' {
            return false;
        }
        i = i + 1;
    }
    true
}

/// How the reader describes a value it did not expect (see `unexpected`).
pub fn unexpected_text(v: &Json) -> (r: String)
    ensures
        r@ == unexpected(v@),
{
    match v {
        Json::Null => "null".to_owned(),
        Json::Bool(b) => if *b {
            "boolean `true`".to_owned()
        } else {
            "boolean `false`".to_owned()
        },
        Json::Number(t) => if is_int_text_exec(t.as_str()) {
            "integer `".to_owned().concat(t.as_str()).concat("`")
        } else {
            "floating point `".to_owned().concat(t.as_str()).concat("`")
        },
        Json::Str(s) => "string ".to_owned().concat(debug_quoted(s.as_str()).as_str()),
        Json::Array(_) => "sequence".to_owned(),
        Json::Object(_) => "map".to_owned(),
    }
}

/// The error for a value of the wrong kind (see `type_msg`).
pub fn type_error(v: &Json, expected: &str) -> (r: String)
    ensures
        r@ == type_msg(v@, expected@),
{
    "invalid type: ".to_owned().concat(unexpected_text(v).as_str()).concat(", expected ").concat(expected)
}

/// The error for a value that is no integer of type `ty` (see
/// `number_msg`).
pub fn number_error(v: &Json, ty: &str) -> (r: String)
    ensures
        r@ == number_msg(v@, ty@),
{
    match v {
        Json::Number(t) => if is_int_text_exec(t.as_str()) {
            "invalid value: integer `".to_owned().concat(t.as_str()).concat("`, expected ").concat(ty)
        } else {
            type_error(v, ty)
        },
        _ => type_error(v, ty),
    }
}

/// The error for a record named `record` read from a value that is not an
/// object (see `not_object_msg`).
pub fn not_object_error(v: &Json, record: &str) -> (r: String)
    ensures
        r@ == not_object_msg(v@, record@),
{
    let exp = "struct ".to_owned().concat(record);
    type_error(v, exp.as_str())
}

/// Reads a required string field.
pub fn d_str(p: &Json, name: &str) -> (r: Result<String, String>)
    ensures
        match r {
            Ok(v) => f_str(jget(p@, name@), name@) == Ok::<Seq<char>, Seq<char>>(v@),
            Err(e) => f_str(jget(p@, name@), name@) == Err::<Seq<char>, Seq<char>>(e@),
        },
{
    match p.get(name) {
        None => Err(missing_error(name)),
        Some(v) => match v.as_str() {
            Some(s) => Ok(s.to_owned()),
            None => Err(type_error(v, "a string")),
        },
    }
}

/// Reads an optional string field.
pub fn d_ostr(p: &Json, name: &str) -> (r: Result<Option<String>, String>)
    ensures
        match r {
            Ok(v) => f_ostr(jget(p@, name@), name@) == Ok::<Option<Seq<char>>, Seq<char>>(
                ostring(v),
            ),
            Err(e) => f_ostr(jget(p@, name@), name@) == Err::<Option<Seq<char>>, Seq<char>>(e@),
        },
{
    match p.get(name) {
        None => Ok(None),
        Some(v) => {
            if v.is_null() {
                Ok(None)
            } else {
                match v.as_str() {
                    Some(s) => Ok(Some(s.to_owned())),
                    None => Err(type_error(v, "a string")),
                }
            }
        },
    }
}

/// Reads a string field that is empty when absent.
pub fn d_dstr(p: &Json, name: &str) -> (r: Result<String, String>)
    ensures
        match r {
            Ok(v) => f_dstr(jget(p@, name@), name@) == Ok::<Seq<char>, Seq<char>>(v@),
            Err(e) => f_dstr(jget(p@, name@), name@) == Err::<Seq<char>, Seq<char>>(e@),
        },
{
    match p.get(name) {
        None => {
            let s = String::new();
            Ok(s)
        },
        Some(v) => match v.as_str() {
            Some(s) => Ok(s.to_owned()),
            None => Err(type_error(v, "a string")),
        },
    }
}

/// Reads a boolean field that is `false` when absent.
pub fn d_dbool(p: &Json, name: &str) -> (r: Result<bool, String>)
    ensures
        match r {
            Ok(v) => f_dbool(jget(p@, name@), name@) == Ok::<bool, Seq<char>>(v),
            Err(e) => f_dbool(jget(p@, name@), name@) == Err::<bool, Seq<char>>(e@),
        },
{
    match p.get(name) {
        None => Ok(false),
        Some(v) => match v.as_bool() {
            Some(b) => Ok(b),
            None => Err(type_error(v, "a boolean")),
        },
    }
}

/// Reads an optional boolean field.
pub fn d_obool(p: &Json, name: &str) -> (r: Result<Option<bool>, String>)
    ensures
        match r {
            Ok(v) => f_obool(jget(p@, name@), name@) == Ok::<Option<bool>, Seq<char>>(v),
            Err(e) => f_obool(jget(p@, name@), name@) == Err::<Option<bool>, Seq<char>>(e@),
        },
{
    match p.get(name) {
        None => Ok(None),
        Some(v) => {
            if v.is_null() {
                Ok(None)
            } else {
                match v.as_bool() {
                    Some(b) => Ok(Some(b)),
                    None => Err(type_error(v, "a boolean")),
                }
            }
        },
    }
}

/// Reads an optional `u64` field.
pub fn d_ou64(p: &Json, name: &str) -> (r: Result<Option<u64>, String>)
    ensures
        match r {
            Ok(v) => f_ou64(jget(p@, name@), name@) == Ok::<Option<u64>, Seq<char>>(v),
            Err(e) => f_ou64(jget(p@, name@), name@) == Err::<Option<u64>, Seq<char>>(e@),
        },
{
    match p.get(name) {
        None => Ok(None),
        Some(v) => {
            if v.is_null() {
                Ok(None)
            } else {
                match v.as_u64() {
                    Some(n) => Ok(Some(n)),
                    None => Err(number_error(v, "u64")),
                }
            }
        },
    }
}

fn u32_of(v: &Json, name: &str) -> (r: Result<u32, String>)
    ensures
        match r {
            Ok(n) => f_u32(Some(v@), name@) == Ok::<u32, Seq<char>>(n),
            Err(e) => f_u32(Some(v@), name@) == Err::<u32, Seq<char>>(e@),
        },
{
    match v.as_u64() {
        Some(n) => {
            if n <= 0xffff_ffffu64 {
                Ok(n as u32)
            } else {
                Err(number_error(v, "u32"))
            }
        },
        None => Err(number_error(v, "u32")),
    }
}

/// Reads a required `u32` field.
pub fn d_u32(p: &Json, name: &str) -> (r: Result<u32, String>)
    ensures
        match r {
            Ok(v) => f_u32(jget(p@, name@), name@) == Ok::<u32, Seq<char>>(v),
            Err(e) => f_u32(jget(p@, name@), name@) == Err::<u32, Seq<char>>(e@),
        },
{
    match p.get(name) {
        None => Err(missing_error(name)),
        Some(v) => u32_of(v, name),
    }
}

/// Reads an optional `u32` field.
pub fn d_ou32(p: &Json, name: &str) -> (r: Result<Option<u32>, String>)
    ensures
        match r {
            Ok(v) => f_ou32(jget(p@, name@), name@) == Ok::<Option<u32>, Seq<char>>(v),
            Err(e) => f_ou32(jget(p@, name@), name@) == Err::<Option<u32>, Seq<char>>(e@),
        },
{
    match p.get(name) {
        None => Ok(None),
        Some(v) => {
            if v.is_null() {
                Ok(None)
            } else {
                match u32_of(v, name) {
                    Ok(n) => Ok(Some(n)),
                    Err(e) => Err(e),
                }
            }
        },
    }
}

/// Reads a `usize` field; `dflt` says whether absence means 0.
pub fn d_usize(p: &Json, name: &str, dflt: bool) -> (r: Result<usize, String>)
    ensures
        match r {
            Ok(v) => f_usize(jget(p@, name@), name@, dflt) == Ok::<usize, Seq<char>>(v),
            Err(e) => f_usize(jget(p@, name@), name@, dflt) == Err::<usize, Seq<char>>(e@),
        },
{
    match p.get(name) {
        None => {
            if dflt {
                Ok(0)
            } else {
                Err(missing_error(name))
            }
        },
        Some(v) => match v.as_u64() {
            Some(n) => {
                if n as u128 <= usize::MAX as u128 {
                    Ok(n as usize)
                } else {
                    Err(number_error(v, "usize"))
                }
            },
            None => Err(number_error(v, "usize")),
        },
    }
}

/// Reads an optional number field as its decimal text.
pub fn d_onum(p: &Json, name: &str) -> (r: Result<Option<String>, String>)
    ensures
        match r {
            Ok(v) => f_onum(jget(p@, name@), name@) == Ok::<Option<Seq<char>>, Seq<char>>(
                ostring(v),
            ),
            Err(e) => f_onum(jget(p@, name@), name@) == Err::<Option<Seq<char>>, Seq<char>>(e@),
        },
{
    match p.get(name) {
        None => Ok(None),
        Some(Json::Null) => Ok(None),
        Some(Json::Number(t)) => Ok(Some(t.as_str().to_owned())),
        Some(v) => Err(type_error(v, "f64")),
    }
}

/// Reads any value; `null` when absent.
pub fn d_djson(p: &Json, name: &str) -> (r: Json)
    ensures
        r@ == f_djson(jget(p@, name@)),
{
    match p.get(name) {
        None => Json::Null,
        Some(v) => v.deep_clone(),
    }
}

/// Reads any value but `null`.
pub fn d_ojson(p: &Json, name: &str) -> (r: Option<Json>)
    ensures
        ojson(r) == f_ojson(jget(p@, name@)),
{
    match p.get(name) {
        None => None,
        Some(v) => {
            if v.is_null() {
                None
            } else {
                Some(v.deep_clone())
            }
        },
    }
}

/// Reads an array of strings; empty when absent.
pub fn d_dstrs(p: &Json, name: &str) -> (r: Result<Vec<String>, String>)
    ensures
        match r {
            Ok(v) => f_dstrs(jget(p@, name@), name@) == Ok::<Seq<Seq<char>>, Seq<char>>(
                strings_view(v@),
            ),
            Err(e) => f_dstrs(jget(p@, name@), name@) == Err::<Seq<Seq<char>>, Seq<char>>(e@),
        },
{
    match p.get(name) {
        None => {
            let v: Vec<String> = Vec::new();
            proof {
                assert(strings_view(v@) =~= Seq::empty());
            }
            Ok(v)
        },
        Some(Json::Array(items)) => {
            proof {
                lemma_view_items(items@);
            }
            let mut i: usize = 0;
            while i < items.len()
                invariant
                    jget(p@, name@) == Some(JsonV::Array(view_items(items@))),
                    i <= items@.len(),
                    view_items(items@).len() == items@.len(),
                    forall|k: int| 0 <= k < items@.len() ==> #[trigger] view_items(items@)[k] == items@[k]@,
                    forall|k: int| 0 <= k < i ==> (#[trigger] view_items(items@)[k]) is Str,
                decreases items@.len() - i,
            {
                match &items[i] {
                    Json::Str(_) => {},
                    _ => {
                        proof {
                            let vi = view_items(items@);
                            assert(!(vi[i as int] is Str));
                            let w = choose|k: int|
                                0 <= k < vi.len() && !((#[trigger] vi[k]) is Str) && forall|q: int|
                                    0 <= q < k ==> (#[trigger] vi[q]) is Str;
                            if w > i {
                                assert(vi[i as int] is Str);
                            }
                        }
                        return Err(type_error(&items[i], "a string"));
                    },
                }
                i = i + 1;
            }
            Ok(string_items(items))
        },
        Some(v) => Err(type_error(v, "a sequence")),
    }
}

/// Reads an array of any values; `dflt` says whether absence means empty.
pub fn d_jsons(p: &Json, name: &str, dflt: bool) -> (r: Result<Vec<Json>, String>)
    ensures
        match r {
            Ok(v) => f_jsons(jget(p@, name@), name@, dflt) == Ok::<Seq<JsonV>, Seq<char>>(
                view_items(v@),
            ),
            Err(e) => f_jsons(jget(p@, name@), name@, dflt) == Err::<Seq<JsonV>, Seq<char>>(e@),
        },
{
    match p.get(name) {
        None => {
            if dflt {
                let v: Vec<Json> = Vec::new();
                proof {
                    assert(view_items(v@) =~= Seq::empty());
                }
                Ok(v)
            } else {
                Err(missing_error(name))
            }
        },
        Some(v) => match v {
            Json::Array(_) => {
                let c = v.deep_clone();
                let ghost cv = c@;
                match c {
                    Json::Array(items) => {
                        assert(cv == JsonV::Array(view_items(items@)));
                        Ok(items)
                    },
                    _ => Err(type_error(v, "a sequence")),
                }
            },
            _ => Err(type_error(v, "a sequence")),
        },
    }
}

} // verus!
