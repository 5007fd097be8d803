//! A JSON document as plain values, and how the values of the application's
//! own formats are read from it.
use vstd::prelude::*;
use crate::first::{first_some, lemma_first_some_at, lemma_first_some_none};
use crate::error::{AppResult, ErrorView, invalid_argument};
use crate::models::{ControllerParam, ControllerParamType, ControllerParamView, FloatNumber, SchemaFieldValue, SchemaValue};

verus! {

broadcast use vstd::std_specs::vec::group_vec_axioms;

/// A JSON number as the readers of `serde_json::Number` see it: as a `u64`, as an
/// `i64` and as an `f64`, each when it can be read so.
#[derive(Debug)]
pub struct JsonNumber {
    pub as_u64: Option<u64>,
    pub as_i64: Option<i64>,
    pub as_f64: Option<FloatNumber>,
}

/// A JSON value; the members of an object come in the order the parser gives
/// them.
#[derive(Debug)]
pub enum JsonValue {
    Null,
    Bool(bool),
    Number(JsonNumber),
    String(String),
    Array(Vec<JsonValue>),
    Object(Vec<JsonMember>),
}

/// A member of a JSON object.
#[derive(Debug)]
pub struct JsonMember {
    pub key: String,
    pub value: JsonValue,
}

/// The view of a [`JsonNumber`].
pub struct NumberView {
    pub as_u64: Option<u64>,
    pub as_i64: Option<i64>,
    pub as_f64: Option<(u64, Seq<char>)>,
}

/// The view of a [`JsonValue`].
pub enum JsonView {
    Null,
    Bool(bool),
    Number(NumberView),
    String(Seq<char>),
    Array(Seq<JsonView>),
    Object(Seq<(Seq<char>, JsonView)>),
}

pub open spec fn number_view(n: JsonNumber) -> NumberView {
    NumberView {
        as_u64: n.as_u64,
        as_i64: n.as_i64,
        as_f64: match n.as_f64 {
            Some(f) => Some((f.bits, f.text@)),
            None => None,
        },
    }
}

pub open spec fn json_view(v: JsonValue) -> JsonView
    decreases v,
{
    match v {
        JsonValue::Null => JsonView::Null,
        JsonValue::Bool(b) => JsonView::Bool(b),
        JsonValue::Number(n) => JsonView::Number(number_view(n)),
        JsonValue::String(s) => JsonView::String(s@),
        JsonValue::Array(items) => JsonView::Array(Seq::new(items.len() as nat, |i: int|
            if 0 <= i < items.len() { json_view(items[i]) } else { JsonView::Null })),
        JsonValue::Object(members) => JsonView::Object(Seq::new(members.len() as nat, |i: int|
            if 0 <= i < members.len() {
                (members[i].key@, json_view(members[i].value))
            } else {
                (Seq::empty(), JsonView::Null)
            })),
    }
}

impl DeepView for JsonValue {
    type V = JsonView;

    open spec fn deep_view(&self) -> JsonView {
        json_view(*self)
    }
}

/// The value type of `serde_json`, which the parser builds.
#[verifier::external_type_specification]
#[verifier::external_body]
pub struct ExSerdeJsonValue(serde_json::Value);

/// What `serde_json::from_str::<serde_json::Value>` gives for a text: the
/// document, or the text of the parser's error.
pub uninterp spec fn serde_json_parse(text: Seq<char>) -> Result<JsonView, Seq<char>>;

/// The view of a parse outcome.
pub open spec fn parsed_view(parsed: Result<JsonValue, String>) -> Result<JsonView, Seq<char>> {
    match parsed {
        Ok(doc) => Ok(doc.deep_view()),
        Err(detail) => Err(detail@),
    }
}

/// Parses `text` with `serde_json::from_str` into a `serde_json::Value` and
/// hands the document back as plain values, or the parser's error as its text
/// (`Display`). Trusted: the outcome is the one the parser gives for `text`,
/// which [`serde_json_parse`] names.
#[verifier::external_body]
pub(crate) fn parse_json(text: &str) -> (r: Result<JsonValue, String>)
    ensures
        parsed_view(r) == serde_json_parse(text@),
{
    match serde_json::from_str::<serde_json::Value>(text) {
        Ok(value) => Ok(json_from_serde(&value)),
        Err(error) => Err(error.to_string()),
    }
}

/// The document `serde_json` built, as plain values, value for value: the part of
/// [`parse_json`] that walks the tree, on its own because it recurses. Nothing is
/// stated of it here; [`parse_json`] states what the two give together.
#[verifier::external_body]
fn json_from_serde(value: &serde_json::Value) -> JsonValue {
    match value {
        serde_json::Value::Null => JsonValue::Null,
        serde_json::Value::Bool(b) => JsonValue::Bool(*b),
        serde_json::Value::Number(n) => JsonValue::Number(JsonNumber { as_u64: n.as_u64(), as_i64: n.as_i64(),
            as_f64: n.as_f64().map(|x| FloatNumber { bits: x.to_bits(), text: x.to_string() }) }),
        serde_json::Value::String(s) => JsonValue::String(s.clone()),
        serde_json::Value::Array(items) => JsonValue::Array(items.iter().map(json_from_serde).collect()),
        serde_json::Value::Object(map) => JsonValue::Object(
            map.iter().map(|(k, v)| JsonMember { key: k.clone(), value: json_from_serde(v) }).collect()),
    }
}

/// The members of an object.
pub open spec fn as_object(v: JsonView) -> Option<Seq<(Seq<char>, JsonView)>> {
    match v {
        JsonView::Object(m) => Some(m),
        _ => None,
    }
}

/// The items of an array.
pub open spec fn as_array(v: JsonView) -> Option<Seq<JsonView>> {
    match v {
        JsonView::Array(items) => Some(items),
        _ => None,
    }
}

/// The text of a string.
pub open spec fn as_str(v: JsonView) -> Option<Seq<char>> {
    match v {
        JsonView::String(s) => Some(s),
        _ => None,
    }
}

/// The bit pattern of a number read as an `f64`.
pub open spec fn as_f64(v: JsonView) -> Option<u64> {
    match v {
        JsonView::Number(n) => match n.as_f64 {
            Some(f) => Some(f.0),
            None => None,
        },
        _ => None,
    }
}

/// A number read as a `u64`.
pub open spec fn as_u64(v: JsonView) -> Option<u64> {
    match v {
        JsonView::Number(n) => n.as_u64,
        _ => None,
    }
}

/// The value of the first member named `key`.
pub open spec fn member_of(members: Seq<(Seq<char>, JsonView)>, key: Seq<char>) -> Option<JsonView> {
    first_some(Seq::new(members.len(), |i: int| if members[i].0 == key { Some(members[i].1) } else { None }))
}

/// The value of the first of `keys` that the object has.
pub open spec fn member_by_keys(members: Seq<(Seq<char>, JsonView)>, keys: Seq<Seq<char>>) -> Option<JsonView>
    decreases keys.len(),
{
    if keys.len() == 0 {
        None
    } else if member_of(members, keys[0]) is Some {
        member_of(members, keys[0])
    } else {
        member_by_keys(members, keys.drop_first())
    }
}

/// The value of the first member named `key`.
pub fn member<'a>(members: &'a Vec<JsonMember>, key: &str) -> (r: Option<&'a JsonValue>)
    ensures
        match r {
            Some(v) => member_of(json_members(members), key@) == Some(v.deep_view()),
            None => member_of(json_members(members), key@) is None,
        },
{
    let ghost m = json_members(members);
    let ghost hits = Seq::new(m.len(), |i: int| if m[i].0 == key@ { Some(m[i].1) } else { None });
    let mut i: usize = 0;
    while i < members.len()
        invariant
            i <= members.len(),
            m == json_members(members),
            hits == Seq::new(m.len(), |i: int| if m[i].0 == key@ { Some(m[i].1) } else { None }),
            forall|j: int| 0 <= j < i ==> (#[trigger] hits[j]) is None,
        decreases members.len() - i,
    {
        assert(m[i as int] == (members@[i as int].key@, members@[i as int].value.deep_view()));
        if same_key(&members[i].key, key) {
            proof { lemma_first_some_at(hits, i as int); }
            return Some(&members[i].value);
        }
        i += 1;
    }
    proof { lemma_first_some_none(hits); }
    None
}

/// The view of the members of an object.
pub open spec fn json_members(members: &Vec<JsonMember>) -> Seq<(Seq<char>, JsonView)> {
    Seq::new(members.len() as nat, |i: int| (members@[i].key@, json_view(members@[i].value)))
}

/// Whether a key is `key`.
fn same_key(a: &String, key: &str) -> (r: bool)
    ensures
        r == (a@ == key@),
{
    let b = String::from_str(key);
    *a == b
}

/// The value of the first of two keys that the object has.
pub fn member_by_two_keys<'a>(members: &'a Vec<JsonMember>, first: &str, second: &str) -> (r: Option<&'a JsonValue>)
    ensures
        match r {
            Some(v) => member_by_keys(json_members(members), seq![first@, second@]) == Some(v.deep_view()),
            None => member_by_keys(json_members(members), seq![first@, second@]) is None,
        },
{
    let ghost keys = seq![first@, second@];
    assert(keys.drop_first() =~= seq![second@]);
    assert(keys.drop_first().drop_first() =~= Seq::<Seq<char>>::empty());
    proof { reveal_with_fuel(member_by_keys, 3); }
    match member(members, first) {
        Some(v) => Some(v),
        None => member(members, second),
    }
}

/// The text of a string value.
pub fn value_str(v: &JsonValue) -> (r: Option<&String>)
    ensures
        match r {
            Some(s) => as_str(v.deep_view()) == Some(s@),
            None => as_str(v.deep_view()) is None,
        },
{
    match v {
        JsonValue::String(s) => Some(s),
        _ => None,
    }
}

/// The items of an array value.
pub fn value_array(v: &JsonValue) -> (r: Option<&Vec<JsonValue>>)
    ensures
        match r {
            Some(items) => as_array(v.deep_view()) == Some(items.deep_view()),
            None => as_array(v.deep_view()) is None,
        },
{
    match v {
        JsonValue::Array(items) => {
            assert(v.deep_view()->Array_0 =~= items.deep_view());
            Some(items)
        },
        _ => None,
    }
}

/// The members of an object value.
pub fn value_object(v: &JsonValue) -> (r: Option<&Vec<JsonMember>>)
    ensures
        match r {
            Some(m) => as_object(v.deep_view()) == Some(json_members(m)),
            None => as_object(v.deep_view()) is None,
        },
{
    match v {
        JsonValue::Object(m) => {
            assert(v.deep_view()->Object_0 =~= json_members(m));
            Some(m)
        },
        _ => None,
    }
}

/// The bit pattern of a number read as an `f64`.
pub fn value_f64(v: &JsonValue) -> (r: Option<u64>)
    ensures
        r == as_f64(v.deep_view()),
{
    match v {
        JsonValue::Number(n) => match &n.as_f64 {
            Some(f) => Some(f.bits),
            None => None,
        },
        _ => None,
    }
}

/// A number read as a `u64`.
pub fn value_u64(v: &JsonValue) -> (r: Option<u64>)
    ensures
        r == as_u64(v.deep_view()),
{
    match v {
        JsonValue::Number(n) => n.as_u64,
        _ => None,
    }
}

/// The texts among the items of an array, in order.
pub open spec fn strings_of(items: Seq<JsonView>) -> Seq<Seq<char>>
    decreases items.len(),
{
    if items.len() == 0 {
        Seq::empty()
    } else {
        let prev = strings_of(items.drop_last());
        match as_str(items.last()) {
            Some(s) => prev.push(s),
            None => prev,
        }
    }
}

/// The texts among the items of an array, in order.
pub fn array_strings(items: &Vec<JsonValue>) -> (r: Vec<String>)
    ensures
        r.deep_view() == strings_of(items.deep_view()),
{
    let ghost its = items.deep_view();
    let mut out: Vec<String> = Vec::new();
    let mut i: usize = 0;
    assert(its.take(0) =~= Seq::<JsonView>::empty());
    while i < items.len()
        invariant
            i <= items.len(),
            its == items.deep_view(),
            out.deep_view() == strings_of(its.take(i as int)),
        decreases items.len() - i,
    {
        assert(its.take(i + 1).drop_last() =~= its.take(i as int));
        assert(its.take(i + 1).last() == items@[i as int].deep_view());
        match value_str(&items[i]) {
            Some(s) => {
                let ghost before = out.deep_view();
                out.push(s.clone());
                assert(out.deep_view() =~= before.push(s@));
            },
            None => {},
        }
        i += 1;
    }
    assert(its.take(items.len() as int) =~= its);
    out
}

/// A schema value read from JSON: a boolean, an integer that fits an `i64`, any
/// other number as an `f64`, a text, or a list of such values; the first value
/// that is none of these is the error.
pub open spec fn schema_value_from_json(v: JsonView) -> Result<SchemaValue, ErrorView>
    decreases v, 1int,
{
    match v {
        JsonView::Bool(b) => Ok(SchemaValue::Bool(b)),
        JsonView::Number(n) => match n.as_i64 {
            Some(i) => Ok(SchemaValue::Int(i)),
            None => match n.as_f64 {
                Some(f) => Ok(SchemaValue::Float(f.0, f.1)),
                None => Err(ErrorView::InvalidArgument("Número inválido em schema.defaultValue"@)),
            },
        },
        JsonView::String(s) => Ok(SchemaValue::Text(s)),
        JsonView::Array(items) => match schema_items_from_json(items) {
            Ok(vs) => Ok(SchemaValue::List(vs)),
            Err(e) => Err(e),
        },
        _ => Err(ErrorView::InvalidArgument("schema.defaultValue possui tipo não suportado"@)),
    }
}

/// The items of a list read from JSON, or the error of the first that cannot be read.
pub open spec fn schema_items_from_json(items: Seq<JsonView>) -> Result<Seq<SchemaValue>, ErrorView>
    decreases items, 0int,
{
    if items.len() == 0 {
        Ok(Seq::empty())
    } else {
        match schema_items_from_json(items.drop_last()) {
            Ok(prev) => match schema_value_from_json(items[items.len() - 1]) {
                Ok(x) => Ok(prev.push(x)),
                Err(e) => Err(e),
            },
            Err(e) => Err(e),
        }
    }
}

/// A schema value read from JSON.
pub fn read_schema_value(v: &JsonValue) -> (r: AppResult<SchemaFieldValue>)
    ensures
        match schema_value_from_json(v.deep_view()) {
            Ok(x) => r matches Ok(y) && y.deep_view() == x,
            Err(e) => r matches Err(y) && y@ == e,
        },
    decreases v,
{
    match v {
        JsonValue::Bool(b) => Ok(SchemaFieldValue::Bool(*b)),
        JsonValue::Number(n) => match n.as_i64 {
            Some(i) => Ok(SchemaFieldValue::Int(i)),
            None => match &n.as_f64 {
                Some(f) => Ok(SchemaFieldValue::Float(f.clone())),
                None => Err(invalid_argument("Número inválido em schema.defaultValue")),
            },
        },
        JsonValue::String(s) => Ok(SchemaFieldValue::String(s.clone())),
        JsonValue::Array(items) => {
            let ghost its = v.deep_view()->Array_0;
            assert(its.len() == items.len());
            let mut out: Vec<SchemaFieldValue> = Vec::new();
            let mut i: usize = 0;
            assert(its.take(0) =~= Seq::<JsonView>::empty());
            assert(out.deep_view() =~= Seq::<SchemaValue>::empty());
            while i < items.len()
                invariant
                    i <= items.len(),
                    *v == JsonValue::Array(*items),
                    its == v.deep_view()->Array_0,
                    its.len() == items.len(),
                    schema_items_from_json(its.take(i as int)) == Ok::<Seq<SchemaValue>, ErrorView>(out.deep_view()),
                decreases items.len() - i,
            {
                proof {
                    let ghost all = *items;
                    assert(decreases_to!(all => all[i as int]));
                    assert(*v is Array);
                    assert(v->Array_0 == all);
                    assert(decreases_to!(*v => v->Array_0));
                }
                assert(its[i as int] == items@[i as int].deep_view());
                assert(its.take(i + 1).drop_last() =~= its.take(i as int));
                assert(its.take(i + 1)[i as int] == its[i as int]);
                match read_schema_value(&items[i]) {
                    Ok(x) => {
                        let ghost before = out.deep_view();
                        out.push(x);
                        assert(out.deep_view() =~= before.push(x.deep_view()));
                    },
                    Err(e) => {
                        proof { lemma_items_error_persists(its, i as int + 1); }
                        return Err(e);
                    },
                }
                i += 1;
            }
            assert(its.take(items.len() as int) =~= its);
            let r = SchemaFieldValue::List(out);
            proof {
                let rv = r.deep_view();
                assert(rv->List_0 =~= out.deep_view());
            }
            Ok(r)
        },
        _ => Err(invalid_argument("schema.defaultValue possui tipo não suportado")),
    }
}

/// Once a prefix of the items fails to read, so do the items.
pub proof fn lemma_items_error_persists(items: Seq<JsonView>, n: int)
    requires
        0 <= n <= items.len(),
        schema_items_from_json(items.take(n)) is Err,
    ensures
        schema_items_from_json(items) == schema_items_from_json(items.take(n)),
    decreases items.len() - n,
{
    if n < items.len() {
        assert(items.take(n + 1).drop_last() =~= items.take(n));
        lemma_items_error_persists(items, n + 1);
    } else {
        assert(items.take(n) =~= items);
    }
}

/// The kind of a controller parameter, read from its name.
pub open spec fn param_type_from_name(s: Seq<char>) -> Option<ControllerParamType> {
    if s == "number"@ {
        Some(ControllerParamType::Number)
    } else if s == "boolean"@ {
        Some(ControllerParamType::Boolean)
    } else if s == "string"@ {
        Some(ControllerParamType::String)
    } else {
        None
    }
}

/// A controller parameter from its three parts: the name of its type, its value
/// and its label.
pub open spec fn param_from_parts(t: JsonView, value: JsonView, l: JsonView) -> Option<ControllerParamView> {
    match as_str(t) {
        Some(name) => match param_type_from_name(name) {
            Some(param_type) => match schema_value_from_json(value) {
                Ok(x) => match as_str(l) {
                    Some(label) => Some(ControllerParamView { param_type, value: x, label }),
                    None => None,
                },
                Err(_) => None,
            },
            None => None,
        },
        None => None,
    }
}

/// A controller parameter read from JSON, in either of the forms a parameter
/// record is read from: an object with the members `type`, `value` and
/// `label`, or an array of exactly those three, in that order.
pub open spec fn param_from_json(v: JsonView) -> Option<ControllerParamView> {
    match v {
        JsonView::Object(m) => match (member_of(m, "type"@), member_of(m, "value"@), member_of(m, "label"@)) {
            (Some(t), Some(value), Some(l)) => param_from_parts(t, value, l),
            _ => None,
        },
        JsonView::Array(items) => if items.len() == 3 {
            param_from_parts(items[0], items[1], items[2])
        } else {
            None
        },
        _ => None,
    }
}

/// A controller parameter from its three parts.
fn read_param_parts(t: &JsonValue, value: &JsonValue, l: &JsonValue) -> (r: Option<ControllerParam>)
    ensures
        match param_from_parts(t.deep_view(), value.deep_view(), l.deep_view()) {
            Some(p) => r matches Some(q) && q.deep_view() == p,
            None => r is None,
        },
{
    let name = match value_str(t) {
        Some(s) => s,
        None => return None,
    };
    proof {
        reveal_strlit("number");
        reveal_strlit("boolean");
        reveal_strlit("string");
    }
    let param_type = if same_key(name, "number") {
        ControllerParamType::Number
    } else if same_key(name, "boolean") {
        ControllerParamType::Boolean
    } else if same_key(name, "string") {
        ControllerParamType::String
    } else {
        return None;
    };
    let x = match read_schema_value(value) {
        Ok(x) => x,
        Err(_) => return None,
    };
    let label = match value_str(l) {
        Some(s) => s.clone(),
        None => return None,
    };
    Some(ControllerParam { param_type, value: x, label })
}

/// A controller parameter read from JSON.
pub fn read_param(v: &JsonValue) -> (r: Option<ControllerParam>)
    ensures
        match param_from_json(v.deep_view()) {
            Some(p) => r matches Some(q) && q.deep_view() == p,
            None => r is None,
        },
{
    match v {
        JsonValue::Object(members) => {
            assert(v.deep_view()->Object_0 =~= json_members(members));
            match (member(members, "type"), member(members, "value"), member(members, "label")) {
                (Some(t), Some(x), Some(l)) => read_param_parts(t, x, l),
                _ => None,
            }
        },
        JsonValue::Array(items) => {
            if items.len() == 3 {
                assert(v.deep_view()->Array_0[0] == items@[0].deep_view());
                assert(v.deep_view()->Array_0[1] == items@[1].deep_view());
                assert(v.deep_view()->Array_0[2] == items@[2].deep_view());
                read_param_parts(&items[0], &items[1], &items[2])
            } else {
                None
            }
        },
        _ => None,
    }
}

} // verus!
