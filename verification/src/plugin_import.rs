//! Reading a plugin description file.
use vstd::prelude::*;
use crate::error::{AppError, AppResult, ErrorView, concat2, invalid_argument};
use crate::first::{collect_results, lemma_collect_error_persists, lemma_collect_step};
use crate::ids::random_uuid;
use crate::json::{parse_json, parsed_view, serde_json_parse, 
    JsonMember, JsonValue, JsonView, as_array, as_object, as_str, json_members, member, member_of, read_schema_value,
    schema_value_from_json, value_array, value_object, value_str,
};
use crate::models::{PluginDependency, PluginRegistry, PluginRuntime, PluginSchemaField, PluginType, PluginView, SchemaFieldType, SchemaFieldView};
use crate::plugin_service::{default_class_of, default_entry_class_for, normalize_optional_text, normalized_text};
use crate::text::{ascii_lower, to_ascii_lower, to_chars, trim, trimmed};

verus! {

broadcast use vstd::std_specs::vec::group_vec_axioms;

/// The text of the first of `keys` whose member is a string.
pub open spec fn string_by_keys(m: Seq<(Seq<char>, JsonView)>, keys: Seq<Seq<char>>) -> Option<Seq<char>>
    decreases keys.len(),
{
    if keys.len() == 0 {
        None
    } else {
        match member_of(m, keys[0]) {
            Some(v) => match as_str(v) {
                Some(s) => Some(s),
                None => string_by_keys(m, keys.drop_first()),
            },
            None => string_by_keys(m, keys.drop_first()),
        }
    }
}

/// The text of the member `key`, when it is a string.
pub fn member_string<'a>(members: &'a Vec<JsonMember>, key: &str) -> (r: Option<&'a String>)
    ensures
        match r {
            Some(s) => string_by_keys(json_members(members), seq![key@]) == Some(s@),
            None => string_by_keys(json_members(members), seq![key@]) is None,
        },
{
    proof { reveal_with_fuel(string_by_keys, 2); }
    assert(seq![key@].drop_first() =~= Seq::<Seq<char>>::empty());
    match member(members, key) {
        Some(v) => value_str(v),
        None => None,
    }
}

/// The text of the first of two keys whose member is a string.
pub fn member_string_by_two_keys<'a>(members: &'a Vec<JsonMember>, first: &str, second: &str) -> (r: Option<&'a String>)
    ensures
        match r {
            Some(s) => string_by_keys(json_members(members), seq![first@, second@]) == Some(s@),
            None => string_by_keys(json_members(members), seq![first@, second@]) is None,
        },
{
    proof { reveal_with_fuel(string_by_keys, 3); }
    assert(seq![first@, second@].drop_first() =~= seq![second@]);
    assert(seq![second@].drop_first() =~= Seq::<Seq<char>>::empty());
    match member(members, first) {
        Some(v) => match value_str(v) {
            Some(s) => return Some(s),
            None => {},
        },
        None => {},
    }
    match member(members, second) {
        Some(v) => value_str(v),
        None => None,
    }
}

/// A text with its ASCII capitals made small.
pub open spec fn ascii_lowered(s: Seq<char>) -> Seq<char> {
    s.map_values(|c: char| ascii_lower(c))
}

/// A text, trimmed, with its ASCII capitals made small.
pub fn trimmed_ascii_lowercase(s: &str) -> (r: Vec<char>)
    ensures
        r@ == ascii_lowered(trimmed(s@)),
{
    let t = trim(s);
    let chars = to_chars(t.as_str());
    let mut out: Vec<char> = Vec::new();
    let mut i: usize = 0;
    while i < chars.len()
        invariant
            i <= chars.len(),
            chars@ == trimmed(s@),
            out@ == chars@.take(i as int).map_values(|c: char| ascii_lower(c)),
        decreases chars.len() - i,
    {
        out.push(to_ascii_lower(chars[i]));
        assert(chars@.take(i + 1).map_values(|c: char| ascii_lower(c))
            =~= chars@.take(i as int).map_values(|c: char| ascii_lower(c)).push(ascii_lower(chars@[i as int])));
        i += 1;
    }
    assert(chars@.take(chars.len() as int) =~= chars@);
    out
}

/// Whether the characters are exactly `word`.
fn chars_are(chars: &Vec<char>, word: &str) -> (r: bool)
    ensures
        r == (chars@ == word@),
{
    let w = to_chars(word);
    if w.len() != chars.len() {
        return false;
    }
    let mut i: usize = 0;
    while i < w.len()
        invariant
            i <= w.len() == chars.len(),
            w@ == word@,
            forall|k: int| 0 <= k < i ==> chars@[k] == w@[k],
        decreases w.len() - i,
    {
        if chars[i] != w[i] {
            return false;
        }
        i += 1;
    }
    assert(chars@ =~= word@);
    true
}

/// The kind of plugin a file names: `driver` or `controller`, in any ASCII case,
/// around blanks.
pub open spec fn plugin_type_from_text(s: Seq<char>) -> Result<PluginType, ErrorView> {
    let k = ascii_lowered(trimmed(s));
    if k == "driver"@ {
        Ok(PluginType::Driver)
    } else if k == "controller"@ {
        Ok(PluginType::Controller)
    } else {
        Err(ErrorView::InvalidArgument("Campo \"kind\" deve ser \"driver\" ou \"controller\""@))
    }
}

/// The runtime a file names: `python`, or `rust-native` or `rust_native`.
pub open spec fn plugin_runtime_from_text(s: Seq<char>) -> Result<PluginRuntime, ErrorView> {
    let k = ascii_lowered(trimmed(s));
    if k == "python"@ {
        Ok(PluginRuntime::Python)
    } else if k == "rust-native"@ || k == "rust_native"@ {
        Ok(PluginRuntime::RustNative)
    } else {
        Err(ErrorView::InvalidArgument("Campo \"runtime\" deve ser \"python\" ou \"rust-native\""@))
    }
}

/// The kind of a schema field a file names.
pub open spec fn schema_type_from_text(s: Seq<char>) -> Option<SchemaFieldType> {
    let k = ascii_lowered(trimmed(s));
    if k == "bool"@ {
        Some(SchemaFieldType::Bool)
    } else if k == "int"@ {
        Some(SchemaFieldType::Int)
    } else if k == "float"@ {
        Some(SchemaFieldType::Float)
    } else if k == "string"@ {
        Some(SchemaFieldType::String)
    } else if k == "list"@ {
        Some(SchemaFieldType::List)
    } else {
        None
    }
}

/// A schema field read from a file.
pub open spec fn schema_field_from_json(v: JsonView) -> Result<SchemaFieldView, ErrorView> {
    match as_object(v) {
        None => Err(ErrorView::InvalidArgument("Campo de schema inválido"@)),
        Some(m) => match normalized_text(string_by_keys(m, seq!["name"@])) {
            None => Err(ErrorView::InvalidArgument("schema.name deve ser string"@)),
            Some(name) => match string_by_keys(m, seq!["type"@]) {
                None => Err(ErrorView::InvalidArgument("schema.type inválido"@)),
                Some(t) => match schema_type_from_text(t) {
                    None => Err(ErrorView::InvalidArgument("schema.type inválido"@)),
                    Some(field_type) => {
                        let raw = if member_of(m, "defaultValue"@) is Some {
                            member_of(m, "defaultValue"@)
                        } else {
                            member_of(m, "default_value"@)
                        };
                        match raw {
                            Some(d) => match schema_value_from_json(d) {
                                Err(e) => Err(e),
                                Ok(x) => Ok(SchemaFieldView {
                                    name,
                                    field_type,
                                    default_value: Some(x),
                                    description: string_by_keys(m, seq!["description"@]),
                                }),
                            },
                            None => Ok(SchemaFieldView {
                                name,
                                field_type,
                                default_value: None,
                                description: string_by_keys(m, seq!["description"@]),
                            }),
                        }
                    },
                },
            },
        },
    }
}

/// A schema field read from a file.
pub fn parse_schema_field(v: &JsonValue) -> (r: AppResult<PluginSchemaField>)
    ensures
        match schema_field_from_json(v.deep_view()) {
            Ok(f) => r matches Ok(x) && x.deep_view() == f,
            Err(e) => r matches Err(x) && x@ == e,
        },
{
    let members = match v {
        JsonValue::Object(m) => m,
        _ => return Err(invalid_argument("Campo de schema inválido")),
    };
    assert(v.deep_view()->Object_0 =~= json_members(members));
    let name = match member_string(members, "name") {
        Some(s) => {
            let t = trim(s.as_str());
            if t.as_str().is_empty() {
                return Err(invalid_argument("schema.name deve ser string"));
            }
            t
        },
        None => return Err(invalid_argument("schema.name deve ser string")),
    };
    let field_type = match member_string(members, "type") {
        Some(s) => {
            let k = trimmed_ascii_lowercase(s.as_str());
            proof {
                reveal_strlit("bool");
                reveal_strlit("int");
                reveal_strlit("float");
                reveal_strlit("string");
                reveal_strlit("list");
            }
            if chars_are(&k, "bool") {
                SchemaFieldType::Bool
            } else if chars_are(&k, "int") {
                SchemaFieldType::Int
            } else if chars_are(&k, "float") {
                SchemaFieldType::Float
            } else if chars_are(&k, "string") {
                SchemaFieldType::String
            } else if chars_are(&k, "list") {
                SchemaFieldType::List
            } else {
                return Err(invalid_argument("schema.type inválido"));
            }
        },
        None => return Err(invalid_argument("schema.type inválido")),
    };
    let raw = match member(members, "defaultValue") {
        Some(d) => Some(d),
        None => member(members, "default_value"),
    };
    let default_value = match raw {
        Some(d) => Some(read_schema_value(d)?),
        None => None,
    };
    let description = match member_string(members, "description") {
        Some(s) => Some(s.clone()),
        None => None,
    };
    Ok(PluginSchemaField { name, field_type, default_value, description })
}

/// A dependency read from a file: a name that is not blank and a version, both trimmed.
pub open spec fn dependency_from_json(v: JsonView) -> Result<(Seq<char>, Seq<char>), ErrorView> {
    match as_object(v) {
        None => Err(ErrorView::InvalidArgument("Dependência inválida"@)),
        Some(m) => match normalized_text(string_by_keys(m, seq!["name"@])) {
            None => Err(ErrorView::InvalidArgument("dependencies.name deve ser string"@)),
            Some(name) => match string_by_keys(m, seq!["version"@]) {
                None => Err(ErrorView::InvalidArgument("dependencies.version deve ser string"@)),
                Some(version) => Ok((name, trimmed(version))),
            },
        },
    }
}

/// A dependency read from a file.
pub fn parse_dependency(v: &JsonValue) -> (r: AppResult<PluginDependency>)
    ensures
        match dependency_from_json(v.deep_view()) {
            Ok(d) => r matches Ok(x) && x.deep_view() == d,
            Err(e) => r matches Err(x) && x@ == e,
        },
{
    let members = match v {
        JsonValue::Object(m) => m,
        _ => return Err(invalid_argument("Dependência inválida")),
    };
    assert(v.deep_view()->Object_0 =~= json_members(members));
    let name = match member_string(members, "name") {
        Some(s) => {
            let t = trim(s.as_str());
            if t.as_str().is_empty() {
                return Err(invalid_argument("dependencies.name deve ser string"));
            }
            t
        },
        None => return Err(invalid_argument("dependencies.name deve ser string")),
    };
    let version = match member_string(members, "version") {
        Some(s) => trim(s.as_str()),
        None => return Err(invalid_argument("dependencies.version deve ser string")),
    };
    Ok(PluginDependency { name, version })
}

/// The schema fields of a file, or the error of the first that cannot be read.
pub open spec fn schema_from_json(items: Seq<JsonView>) -> Result<Seq<SchemaFieldView>, ErrorView> {
    collect_results(items.map_values(|v: JsonView| schema_field_from_json(v)))
}

/// The dependencies of a file, or the error of the first that cannot be read.
pub open spec fn dependencies_from_json(items: Seq<JsonView>) -> Result<Seq<(Seq<char>, Seq<char>)>, ErrorView> {
    collect_results(items.map_values(|v: JsonView| dependency_from_json(v)))
}

/// The schema fields of a file.
pub fn read_schema(items: &Vec<JsonValue>) -> (r: AppResult<Vec<PluginSchemaField>>)
    ensures
        match schema_from_json(items.deep_view()) {
            Ok(fs) => r matches Ok(x) && x.deep_view() == fs,
            Err(e) => r matches Err(x) && x@ == e,
        },
{
    let ghost rs = items.deep_view().map_values(|v: JsonView| schema_field_from_json(v));
    let mut out: Vec<PluginSchemaField> = Vec::new();
    let mut i: usize = 0;
    assert(rs.take(0) =~= Seq::<Result<SchemaFieldView, ErrorView>>::empty());
    assert(out.deep_view() =~= Seq::<SchemaFieldView>::empty());
    while i < items.len()
        invariant
            i <= items.len(),
            rs == items.deep_view().map_values(|v: JsonView| schema_field_from_json(v)),
            collect_results(rs.take(i as int)) == Ok::<Seq<SchemaFieldView>, ErrorView>(out.deep_view()),
        decreases items.len() - i,
    {
        proof { lemma_collect_step(rs, i as int); }
        assert(rs[i as int] == schema_field_from_json(items@[i as int].deep_view()));
        match parse_schema_field(&items[i]) {
            Ok(f) => {
                let ghost before = out.deep_view();
                out.push(f);
                assert(out.deep_view() =~= before.push(f.deep_view()));
            },
            Err(e) => {
                proof { lemma_collect_error_persists(rs, i as int + 1); }
                return Err(e);
            },
        }
        i += 1;
    }
    assert(rs.take(items.len() as int) =~= rs);
    Ok(out)
}

/// The dependencies of a file.
pub fn read_dependencies(items: &Vec<JsonValue>) -> (r: AppResult<Vec<PluginDependency>>)
    ensures
        match dependencies_from_json(items.deep_view()) {
            Ok(ds) => r matches Ok(x) && x.deep_view() == ds,
            Err(e) => r matches Err(x) && x@ == e,
        },
{
    let ghost rs = items.deep_view().map_values(|v: JsonView| dependency_from_json(v));
    let mut out: Vec<PluginDependency> = Vec::new();
    let mut i: usize = 0;
    assert(rs.take(0) =~= Seq::<Result<(Seq<char>, Seq<char>), ErrorView>>::empty());
    assert(out.deep_view() =~= Seq::<(Seq<char>, Seq<char>)>::empty());
    while i < items.len()
        invariant
            i <= items.len(),
            rs == items.deep_view().map_values(|v: JsonView| dependency_from_json(v)),
            collect_results(rs.take(i as int)) == Ok::<Seq<(Seq<char>, Seq<char>)>, ErrorView>(out.deep_view()),
        decreases items.len() - i,
    {
        proof { lemma_collect_step(rs, i as int); }
        assert(rs[i as int] == dependency_from_json(items@[i as int].deep_view()));
        match parse_dependency(&items[i]) {
            Ok(d) => {
                let ghost before = out.deep_view();
                out.push(d);
                assert(out.deep_view() =~= before.push(d.deep_view()));
            },
            Err(e) => {
                proof { lemma_collect_error_persists(rs, i as int + 1); }
                return Err(e);
            },
        }
        i += 1;
    }
    assert(rs.take(items.len() as int) =~= rs);
    Ok(out)
}

/// Whether `id` is the id a plugin file gets: its `id` member, trimmed, when it
/// is a text that is not blank, else `plugin_` followed by a fresh 36-character UUID.
pub open spec fn imported_plugin_id(m: Seq<(Seq<char>, JsonView)>, id: Seq<char>) -> bool {
    match normalized_text(string_by_keys(m, seq!["id"@])) {
        Some(given) => id == given,
        None => id.len() == 43 && id.take(7) == "plugin_"@,
    }
}

/// What a plugin file describes, with `id` as its id, or the error that refuses it.
pub open spec fn plugin_from_json(root: JsonView, id: Seq<char>) -> Result<PluginView, ErrorView> {
    match as_object(root) {
        None => Err(ErrorView::InvalidArgument("Arquivo inválido: não é um objeto JSON"@)),
        Some(m) => match normalized_text(string_by_keys(m, seq!["name"@])) {
            None => Err(ErrorView::InvalidArgument("Campo \"name\" é obrigatório"@)),
            Some(name) => match string_by_keys(m, seq!["kind"@, "type"@]) {
                None => Err(ErrorView::InvalidArgument("Campo \"kind\" deve ser uma string não vazia"@)),
                Some(kind) => match plugin_type_from_text(kind) {
                    Err(e) => Err(e),
                    Ok(plugin_type) => match string_by_keys(m, seq!["runtime"@]) {
                        None => Err(ErrorView::InvalidArgument("Campo \"runtime\" deve ser uma string"@)),
                        Some(rt) => match plugin_runtime_from_text(rt) {
                            Err(e) => Err(e),
                            Ok(runtime) => match member_of(m, "schema"@) {
                                None => Err(ErrorView::InvalidArgument("Campo \"schema\" deve ser um array"@)),
                                Some(sv) => match as_array(sv) {
                                    None => Err(ErrorView::InvalidArgument("Campo \"schema\" deve ser um array"@)),
                                    Some(items) => match schema_from_json(items) {
                                        Err(e) => Err(e),
                                        Ok(schema) => {
                                            let deps = match member_of(m, "dependencies"@) {
                                                Some(dv) => match as_array(dv) {
                                                    Some(ds) => dependencies_from_json(ds),
                                                    None => Ok(Seq::empty()),
                                                },
                                                None => Ok(Seq::empty()),
                                            };
                                            match deps {
                                                Err(e) => Err(e),
                                                Ok(dependencies) => Ok(PluginView {
                                                    id,
                                                    name,
                                                    plugin_type,
                                                    runtime,
                                                    entry_class: match normalized_text(string_by_keys(m, seq!["entryClass"@, "entry_class"@])) {
                                                        Some(c) => c,
                                                        None => default_class_of(name, plugin_type),
                                                    },
                                                    schema,
                                                    source_file: match normalized_text(string_by_keys(m, seq!["sourceFile"@, "source_file"@])) {
                                                        Some(f) => Some(f),
                                                        None => Some("main.py"@),
                                                    },
                                                    source_code: normalized_text(string_by_keys(m, seq!["sourceCode"@, "source_code"@])),
                                                    dependencies,
                                                    description: normalized_text(string_by_keys(m, seq!["description"@])),
                                                    version: normalized_text(string_by_keys(m, seq!["version"@])),
                                                    author: normalized_text(string_by_keys(m, seq!["author"@])),
                                                }),
                                            }
                                        },
                                    },
                                },
                            },
                        },
                    },
                },
            },
        },
    }
}

/// The reader of plugin description files.
pub struct PluginImportService;

/// The error for a file that is not JSON, with the parser's explanation.
pub open spec fn invalid_json(detail: Seq<char>) -> ErrorView {
    ErrorView::InvalidArgument("JSON inválido: "@ + detail)
}

/// Whether `r` is what reading a plugin file gives when its content parsed as
/// `parsed`: the JSON document, or the parser's explanation of why the content
/// is not JSON.
pub open spec fn plugin_file_outcome(parsed: Result<JsonView, Seq<char>>, r: AppResult<PluginRegistry>) -> bool {
    match parsed {
        Err(detail) => r matches Err(x) && x@ == invalid_json(detail),
        Ok(doc) => match r {
            Ok(p) => plugin_from_json(doc, p.id@) == Ok::<PluginView, ErrorView>(p@)
                && imported_plugin_id(doc->Object_0, p.id@),
            Err(e) => forall|id: Seq<char>| plugin_from_json(doc, id) == Err::<PluginView, ErrorView>(e@),
        },
    }
}

impl PluginImportService {
    /// The plugin a plugin file describes, from the file's text: the text is
    /// parsed as JSON, then read as [`Self::parse_document`] reads it.
    pub fn parse_file(content: &str) -> (r: AppResult<PluginRegistry>)
        ensures
            plugin_file_outcome(serde_json_parse(content@), r),
    {
        Self::parse_document(parse_json(content))
    }

    /// The plugin a file describes, from the file's content as parsed: the JSON
    /// document or the parser's explanation of why the content is not JSON.
    pub fn parse_document(parsed: Result<JsonValue, String>) -> (r: AppResult<PluginRegistry>)
        ensures
            plugin_file_outcome(parsed_view(parsed), r),
    {
        let doc = match parsed {
            Ok(doc) => doc,
            Err(detail) => return Err(AppError::InvalidArgument(concat2("JSON inválido: ", detail.as_str()))),
        };
        let members = match value_object(&doc) {
            Some(m) => m,
            None => return Err(invalid_argument("Arquivo inválido: não é um objeto JSON")),
        };
        let name = match member_string(members, "name") {
            Some(s) => match normalize_optional_text(Some(s.clone())) {
                Some(t) => t,
                None => return Err(invalid_argument("Campo \"name\" é obrigatório")),
            },
            None => return Err(invalid_argument("Campo \"name\" é obrigatório")),
        };
        proof {
            reveal_strlit("driver");
            reveal_strlit("controller");
            reveal_strlit("python");
            reveal_strlit("rust-native");
            reveal_strlit("rust_native");
        }
        let plugin_type = match member_string_by_two_keys(members, "kind", "type") {
            Some(s) => {
                let k = trimmed_ascii_lowercase(s.as_str());
                if chars_are(&k, "driver") {
                    PluginType::Driver
                } else if chars_are(&k, "controller") {
                    PluginType::Controller
                } else {
                    return Err(invalid_argument("Campo \"kind\" deve ser \"driver\" ou \"controller\""));
                }
            },
            None => return Err(invalid_argument("Campo \"kind\" deve ser uma string não vazia")),
        };
        let runtime = match member_string(members, "runtime") {
            Some(s) => {
                let k = trimmed_ascii_lowercase(s.as_str());
                if chars_are(&k, "python") {
                    PluginRuntime::Python
                } else if chars_are(&k, "rust-native") || chars_are(&k, "rust_native") {
                    PluginRuntime::RustNative
                } else {
                    return Err(invalid_argument("Campo \"runtime\" deve ser \"python\" ou \"rust-native\""));
                }
            },
            None => return Err(invalid_argument("Campo \"runtime\" deve ser uma string")),
        };
        let entry_class = match normalize_optional_text(optional_clone(member_string_by_two_keys(members, "entryClass", "entry_class"))) {
            Some(c) => c,
            None => default_entry_class_for(name.as_str(), plugin_type),
        };
        let source_file = match normalize_optional_text(optional_clone(member_string_by_two_keys(members, "sourceFile", "source_file"))) {
            Some(f) => f,
            None => String::from_str("main.py"),
        };
        let source_code = normalize_optional_text(optional_clone(member_string_by_two_keys(members, "sourceCode", "source_code")));
        let schema = match member(members, "schema") {
            Some(sv) => match value_array(sv) {
                Some(items) => read_schema(items)?,
                None => return Err(invalid_argument("Campo \"schema\" deve ser um array")),
            },
            None => return Err(invalid_argument("Campo \"schema\" deve ser um array")),
        };
        let dependencies = match member(members, "dependencies") {
            Some(dv) => match value_array(dv) {
                Some(items) => read_dependencies(items)?,
                None => no_dependencies(),
            },
            None => no_dependencies(),
        };
        let id = match normalize_optional_text(optional_clone(member_string(members, "id"))) {
            Some(given) => given,
            None => {
                proof { reveal_strlit("plugin_"); }
                let fresh = random_uuid();
                let id = concat2("plugin_", fresh.as_str());
                assert(id@.take(7) =~= "plugin_"@);
                id
            },
        };
        let description = normalize_optional_text(optional_clone(member_string(members, "description")));
        let version = normalize_optional_text(optional_clone(member_string(members, "version")));
        let author = normalize_optional_text(optional_clone(member_string(members, "author")));
        let r = PluginRegistry {
            id,
            name,
            plugin_type,
            runtime,
            entry_class,
            schema,
            source_file: Some(source_file),
            source_code,
            dependencies,
            description,
            version,
            author,
        };
        Ok(r)
    }
}

/// No dependencies.
fn no_dependencies() -> (r: Vec<PluginDependency>)
    ensures
        r.deep_view() == Seq::<(Seq<char>, Seq<char>)>::empty(),
{
    let r: Vec<PluginDependency> = Vec::new();
    assert(r.deep_view() =~= Seq::<(Seq<char>, Seq<char>)>::empty());
    r
}

/// An owned copy of an optional text.
fn optional_clone(s: Option<&String>) -> (r: Option<String>)
    ensures
        r.deep_view() == match s { Some(x) => Some(x@), None => None::<Seq<char>> },
{
    match s {
        Some(x) => Some(x.clone()),
        None => None,
    }
}

/// A plugin file as the interface sends it: its text.
#[derive(Debug)]
pub struct ImportPluginFileRequest {
    pub content: String,
}

} // verus!
