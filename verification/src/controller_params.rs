//! Controller parameters taken from a plugin's schema defaults.
use vstd::prelude::*;
use crate::keyed::{has_key};
use crate::models::{ControllerParam, ControllerParamType, ControllerParamView, FloatNumber, ParamEntry, PluginRegistry, PluginSchemaField, SchemaFieldType, SchemaFieldValue, SchemaFieldView, SchemaValue};
use crate::text::{blank, format_i64, is_blank, signed_decimal_of, trim, trimmed};

verus! {

broadcast use vstd::std_specs::vec::group_vec_axioms;

/// A schema value written as text: booleans and integers as Rust writes them,
/// numbers as rendered, texts as they are, lists as their items joined by ", ".
pub open spec fn stringified(v: SchemaValue) -> Seq<char>
    decreases v, 1int,
{
    match v {
        SchemaValue::Bool(b) => if b { "true"@ } else { "false"@ },
        SchemaValue::Int(i) => signed_decimal_of(i as int),
        SchemaValue::Float(_, text) => text,
        SchemaValue::Text(s) => s,
        SchemaValue::List(items) => stringified_items(items),
    }
}

/// The items of a list written as text and joined by ", ".
pub open spec fn stringified_items(items: Seq<SchemaValue>) -> Seq<char>
    decreases items, 0int,
{
    if items.len() == 0 {
        Seq::empty()
    } else if items.len() == 1 {
        stringified(items[0])
    } else {
        stringified_items(items.drop_last()) + ", "@ + stringified(items[items.len() - 1])
    }
}

/// A schema value written as text.
pub fn stringify_schema_value(value: &SchemaFieldValue) -> (r: String)
    ensures
        r@ == stringified(value.deep_view()),
    decreases value,
{
    match value {
        SchemaFieldValue::Bool(b) => if *b { String::from_str("true") } else { String::from_str("false") },
        SchemaFieldValue::Int(i) => format_i64(*i),
        SchemaFieldValue::Float(f) => f.text.clone(),
        SchemaFieldValue::String(s) => s.clone(),
        SchemaFieldValue::List(items) => {
            let ghost vs = value.deep_view()->List_0;
            assert(vs.len() == items.len());
            let mut out = String::new();
            let mut i: usize = 0;
            while i < items.len()
                invariant
                    i <= items.len(),
                    *value == SchemaFieldValue::List(*items),
                    vs == value.deep_view()->List_0,
                    vs.len() == items.len(),
                    out@ == stringified_items(vs.take(i as int)),
                decreases items.len() - i,
            {
                proof {
                    let ghost its = *items;
                    assert(decreases_to!(its => its[i as int]));
                    assert(*value is List);
                    assert(value->List_0 == its);
                    assert(decreases_to!(*value => value->List_0));
                }
                let part = stringify_schema_value(&items[i]);
                assert(vs[i as int] == items[i as int].deep_view());
                assert(vs.take(i + 1).drop_last() =~= vs.take(i as int));
                if i > 0 {
                    out.append(", ");
                } else {
                    assert(vs.take(1) =~= seq![vs[0]]);
                }
                out.append(part.as_str());
                i += 1;
            }
            assert(vs.take(items.len() as int) =~= vs);
            out
        },
    }
}

/// The label of a parameter taken from a schema field: its description, trimmed,
/// unless blank or absent; else the field's name.
pub open spec fn schema_label(f: SchemaFieldView) -> Seq<char> {
    match f.description {
        Some(d) => if blank(d) { f.name } else { trimmed(d) },
        None => f.name,
    }
}

/// The value of a parameter taken from a schema field, by the field's kind.
pub open spec fn schema_param_value(f: SchemaFieldView) -> SchemaValue {
    match f.field_type {
        SchemaFieldType::Bool => match f.default_value {
            Some(SchemaValue::Bool(b)) => SchemaValue::Bool(b),
            _ => SchemaValue::Bool(false),
        },
        SchemaFieldType::Int => match f.default_value {
            Some(SchemaValue::Int(v)) => SchemaValue::Int(v),
            Some(SchemaValue::Float(b, t)) => SchemaValue::Float(b, t),
            _ => SchemaValue::Int(0),
        },
        SchemaFieldType::Float => match f.default_value {
            Some(SchemaValue::Float(b, t)) => SchemaValue::Float(b, t),
            Some(SchemaValue::Int(v)) => SchemaValue::Int(v),
            _ => SchemaValue::Float(0, "0"@),
        },
        SchemaFieldType::String => match f.default_value {
            Some(SchemaValue::Text(s)) => SchemaValue::Text(s),
            Some(other) => SchemaValue::Text(stringified(other)),
            None => SchemaValue::Text(Seq::empty()),
        },
        SchemaFieldType::List => match f.default_value {
            Some(other) => SchemaValue::Text(stringified(other)),
            None => SchemaValue::Text(Seq::empty()),
        },
    }
}

/// The parameter a schema field stands for when a controller does not set it.
pub open spec fn param_from_schema(f: SchemaFieldView) -> ControllerParamView {
    ControllerParamView {
        param_type: match f.field_type {
            SchemaFieldType::Bool => ControllerParamType::Boolean,
            SchemaFieldType::Int => ControllerParamType::Number,
            SchemaFieldType::Float => ControllerParamType::Number,
            SchemaFieldType::String => ControllerParamType::String,
            SchemaFieldType::List => ControllerParamType::String,
        },
        value: schema_param_value(f),
        label: schema_label(f),
    }
}

/// The parameter a schema field stands for when a controller does not set it.
pub fn controller_param_from_schema(field: &PluginSchemaField) -> (r: ControllerParam)
    ensures
        r.deep_view() == param_from_schema(field.deep_view()),
{
    let label = match &field.description {
        Some(d) => if is_blank(d.as_str()) { field.name.clone() } else { trim(d.as_str()) },
        None => field.name.clone(),
    };
    let (param_type, value) = match field.field_type {
        SchemaFieldType::Bool => (ControllerParamType::Boolean, match &field.default_value {
            Some(SchemaFieldValue::Bool(b)) => SchemaFieldValue::Bool(*b),
            _ => SchemaFieldValue::Bool(false),
        }),
        SchemaFieldType::Int => (ControllerParamType::Number, match &field.default_value {
            Some(SchemaFieldValue::Int(v)) => SchemaFieldValue::Int(*v),
            Some(SchemaFieldValue::Float(f)) => SchemaFieldValue::Float(f.clone()),
            _ => SchemaFieldValue::Int(0),
        }),
        SchemaFieldType::Float => (ControllerParamType::Number, match &field.default_value {
            Some(SchemaFieldValue::Float(f)) => SchemaFieldValue::Float(f.clone()),
            Some(SchemaFieldValue::Int(v)) => SchemaFieldValue::Int(*v),
            _ => SchemaFieldValue::Float(FloatNumber { bits: 0, text: String::from_str("0") }),
        }),
        SchemaFieldType::String => (ControllerParamType::String, match &field.default_value {
            Some(SchemaFieldValue::String(s)) => SchemaFieldValue::String(s.clone()),
            Some(other) => SchemaFieldValue::String(stringify_schema_value(other)),
            None => SchemaFieldValue::String(String::new()),
        }),
        SchemaFieldType::List => (ControllerParamType::String, match &field.default_value {
            Some(other) => SchemaFieldValue::String(stringify_schema_value(other)),
            None => SchemaFieldValue::String(String::new()),
        }),
    };
    ControllerParam { param_type, value, label }
}

/// The parameters after adding, in schema order, every schema field that has no
/// parameter yet.
pub open spec fn filled_params(
    params: Seq<(Seq<char>, ControllerParamView)>,
    fields: Seq<SchemaFieldView>,
) -> Seq<(Seq<char>, ControllerParamView)>
    decreases fields.len(),
{
    if fields.len() == 0 {
        params
    } else {
        let prev = filled_params(params, fields.drop_last());
        let f = fields.last();
        if has_key(prev, f.name) {
            prev
        } else {
            prev.push((f.name, param_from_schema(f)))
        }
    }
}

/// Adds the schema defaults of `plugin` for every parameter that is missing;
/// returns whether any was added.
pub fn fill_missing_controller_params(params: &mut Vec<ParamEntry>, plugin: &PluginRegistry) -> (changed: bool)
    ensures
        final(params).deep_view() == filled_params(old(params).deep_view(), plugin@.schema),
        changed == (final(params).len() != old(params).len()),
{
    let ghost fields = plugin@.schema;
    let ghost start = params.deep_view();
    let mut changed = false;
    let mut i: usize = 0;
    assert(fields.take(0) =~= Seq::<SchemaFieldView>::empty());
    while i < plugin.schema.len()
        invariant
            i <= plugin.schema.len(),
            fields == plugin@.schema,
            params.deep_view() == filled_params(start, fields.take(i as int)),
            start.len() <= params.len(),
            changed == (params.len() != start.len()),
        decreases plugin.schema.len() - i,
    {
        let field = &plugin.schema[i];
        assert(fields.take(i + 1).drop_last() =~= fields.take(i as int));
        assert(fields[i as int] == field.deep_view());
        let mut found = false;
        let mut j: usize = 0;
        while j < params.len()
            invariant
                j <= params.len(),
                !found ==> forall|k: int| 0 <= k < j ==> (#[trigger] params.deep_view()[k]).0 != field.name@,
                found ==> has_key(params.deep_view(), field.name@),
            decreases params.len() - j,
        {
            if params[j].key == field.name {
                found = true;
                assert(params.deep_view()[j as int].0 == field.name@);
            }
            j += 1;
        }
        if !found {
            let ghost before = params.deep_view();
            let p = controller_param_from_schema(field);
            params.push(ParamEntry { key: field.name.clone(), param: p });
            assert(params.deep_view() =~= before.push((field.name@, param_from_schema(field.deep_view()))));
            changed = true;
        }
        i += 1;
    }
    assert(fields.take(plugin.schema.len() as int) =~= fields);
    changed
}

} // verus!
