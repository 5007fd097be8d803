//! Reading a plant file: either the registry a plant is saved as, or an export
//! of recorded data with its sensors, actuators and setpoints.
use vstd::prelude::*;
use crate::error::{AppError, AppResult, ErrorView, concat2, concat3, invalid_argument};
use crate::first::{collect_results, lemma_collect_error_persists, lemma_collect_step};
use crate::ids::random_uuid_simple;
use crate::json::{
    JsonMember, JsonValue, JsonView, as_array, as_f64, as_object, as_str, as_u64, json_members, member,
    member_by_keys, member_by_two_keys, member_of, param_from_json, read_param, read_schema_value,
    schema_value_from_json, strings_of, array_strings, value_array, value_f64, value_object, value_str, value_u64,
};
use crate::keyed::{Keyed, last_match, last_wins, upsert, distinct_keys};
use crate::models::{
    ConfigEntry, ControllerParamView, ParamEntry, PlantVariable, SchemaValue, VariableType, VariableView,
};
use crate::plant_validation::var_label;
use crate::plugin_import::invalid_json;
use crate::plugin_service::{normalize_optional_text, normalized_text};
use crate::text::{blank, decimal_of, format_decimal, is_blank, str_to_lowercase, trimmed, unicode_lowercase};

verus! {

broadcast use vstd::std_specs::vec::group_vec_axioms;

/// A plant file and the name it was opened under.
pub struct PlantImportFileRequest {
    pub file_name: String,
    pub content: String,
}

/// The driver a plant file names.
pub struct ImportedWorkspaceDriverResponse {
    pub plugin_id: String,
    pub plugin_name: String,
    pub config: Vec<ConfigEntry>,
}

/// The view of an [`ImportedWorkspaceDriverResponse`].
pub struct ImportedDriverView {
    pub plugin_id: Seq<char>,
    pub plugin_name: Seq<char>,
    pub config: Seq<(Seq<char>, SchemaValue)>,
}

impl DeepView for ImportedWorkspaceDriverResponse {
    type V = ImportedDriverView;

    open spec fn deep_view(&self) -> ImportedDriverView {
        ImportedDriverView { plugin_id: self.plugin_id@, plugin_name: self.plugin_name@, config: self.config.deep_view() }
    }
}

/// A controller a plant file names.
pub struct ImportedWorkspaceControllerResponse {
    pub id: String,
    pub plugin_id: String,
    pub plugin_name: String,
    pub name: String,
    pub controller_type: String,
    pub active: bool,
    pub input_variable_ids: Vec<String>,
    pub output_variable_ids: Vec<String>,
    pub params: Vec<ParamEntry>,
}

/// The view of an [`ImportedWorkspaceControllerResponse`].
pub struct ImportedControllerView {
    pub id: Seq<char>,
    pub plugin_id: Seq<char>,
    pub plugin_name: Seq<char>,
    pub name: Seq<char>,
    pub controller_type: Seq<char>,
    pub active: bool,
    pub input_variable_ids: Seq<Seq<char>>,
    pub output_variable_ids: Seq<Seq<char>>,
    pub params: Seq<(Seq<char>, ControllerParamView)>,
}

impl DeepView for ImportedWorkspaceControllerResponse {
    type V = ImportedControllerView;

    open spec fn deep_view(&self) -> ImportedControllerView {
        ImportedControllerView {
            id: self.id@,
            plugin_id: self.plugin_id@,
            plugin_name: self.plugin_name@,
            name: self.name@,
            controller_type: self.controller_type@,
            active: self.active,
            input_variable_ids: self.input_variable_ids.deep_view(),
            output_variable_ids: self.output_variable_ids.deep_view(),
            params: self.params.deep_view(),
        }
    }
}

/// One series of the recorded data of a plant.
pub struct ImportedSeriesDescriptorResponse {
    pub key: String,
    pub label: String,
    pub role: String,
}

impl DeepView for ImportedSeriesDescriptorResponse {
    type V = (Seq<char>, Seq<char>, Seq<char>);

    open spec fn deep_view(&self) -> (Seq<char>, Seq<char>, Seq<char>) {
        (self.key@, self.label@, self.role@)
    }
}

/// The series of the recorded data of a plant.
pub struct ImportedSeriesCatalogResponse {
    pub plant_id: String,
    pub series: Vec<ImportedSeriesDescriptorResponse>,
}

/// The text of a value, when it is a string.
pub open spec fn text_of(o: Option<JsonView>) -> Option<Seq<char>> {
    match o {
        Some(v) => as_str(v),
        None => None,
    }
}

/// The text of a value, trimmed, when it is a string that is not blank.
pub open spec fn filled_text(o: Option<JsonView>) -> Option<Seq<char>> {
    normalized_text(text_of(o))
}

/// `name[i]`.
pub open spec fn indexed(name: Seq<char>, i: int) -> Seq<char> {
    name + "["@ + decimal_of(i as nat) + "]"@
}

/// The error for a value that should be an object.
pub open spec fn not_object(context: Seq<char>) -> ErrorView {
    ErrorView::InvalidArgument(context + " deve ser um objeto"@)
}

/// The error for a value that should be an array.
pub open spec fn not_array(context: Seq<char>) -> ErrorView {
    ErrorView::InvalidArgument(context + " deve ser um array"@)
}

/// The error for a value that should be a string.
pub open spec fn not_string(context: Seq<char>) -> ErrorView {
    ErrorView::InvalidArgument(context + " deve ser uma string"@)
}

/// The error for a value that should be a number.
pub open spec fn not_number(context: Seq<char>) -> ErrorView {
    ErrorView::InvalidArgument(context + " deve ser um número"@)
}

/// The text of an optional value.
pub fn opt_text<'a>(v: Option<&'a JsonValue>) -> (r: Option<&'a String>)
    ensures
        match r {
            Some(s) => text_of(match v { Some(x) => Some(x.deep_view()), None => None::<JsonView> }) == Some(s@),
            None => text_of(match v { Some(x) => Some(x.deep_view()), None => None::<JsonView> }) is None,
        },
{
    match v {
        Some(x) => value_str(x),
        None => None,
    }
}

/// The view of an optional value.
pub open spec fn opt_view(v: Option<&JsonValue>) -> Option<JsonView> {
    match v {
        Some(x) => Some(x.deep_view()),
        None => None,
    }
}

/// The text of an optional value, trimmed, when it is a string that is not blank.
pub fn opt_filled_text(v: Option<&JsonValue>) -> (r: Option<String>)
    ensures
        r.deep_view() == filled_text(opt_view(v)),
{
    match opt_text(v) {
        Some(s) => normalize_optional_text(Some(s.clone())),
        None => None,
    }
}

/// `name[i]` as text.
pub fn indexed_text(name: &str, i: usize) -> (r: String)
    ensures
        r@ == indexed(name@, i as int),
{
    let n = format_decimal(i);
    let mut s = concat2(name, "[");
    s.append(n.as_str());
    s.append("]");
    s
}

/// The bit pattern of 100.0.
pub open spec fn hundred_bits() -> u64 {
    0x4059_0000_0000_0000
}

/// The kind of a variable named in a registry: `sensor`, or `atuador` or
/// `actuator`, in any case, around blanks.
pub open spec fn variable_type_from_text(s: Seq<char>) -> Option<VariableType> {
    let k = unicode_lowercase(trimmed(s));
    if k == "sensor"@ {
        Some(VariableType::Sensor)
    } else if k == "atuador"@ || k == "actuator"@ {
        Some(VariableType::Atuador)
    } else {
        None
    }
}

/// The variable at position `i` of a registry file.
pub open spec fn registry_variable(v: JsonView, i: int) -> Result<VariableView, ErrorView> {
    match as_object(v) {
        None => Err(not_object(indexed("variables"@, i))),
        Some(m) => match text_of(member_of(m, "name"@)) {
            None => Err(not_string(indexed("variables"@, i) + ".name"@)),
            Some(name) => match text_of(member_of(m, "type"@)) {
                None => Err(ErrorView::InvalidArgument(indexed("variables"@, i) + ".type deve ser string"@)),
                Some(label) => match variable_type_from_text(label) {
                    None => Err(ErrorView::InvalidArgument("variables.type deve ser \"sensor\" ou \"atuador\""@)),
                    Some(var_type) => Ok(VariableView {
                        id: match filled_text(member_of(m, "id"@)) {
                            Some(id) => id,
                            None => var_label(i),
                        },
                        name,
                        var_type,
                        unit: match text_of(member_of(m, "unit"@)) {
                            Some(u) => u,
                            None => "%"@,
                        },
                        setpoint: match member_of(m, "setpoint"@) {
                            Some(x) => match as_f64(x) { Some(b) => b, None => 0 },
                            None => 0,
                        },
                        pv_min: match member_by_keys(m, seq!["pv_min"@, "pvMin"@]) {
                            Some(x) => match as_f64(x) { Some(b) => b, None => 0 },
                            None => 0,
                        },
                        pv_max: match member_by_keys(m, seq!["pv_max"@, "pvMax"@]) {
                            Some(x) => match as_f64(x) { Some(b) => b, None => hundred_bits() },
                            None => hundred_bits(),
                        },
                        linked_sensor_ids: match member_by_keys(m, seq!["linked_sensor_ids"@, "linkedSensorIds"@]) {
                            Some(x) => match as_array(x) { Some(items) => Some(strings_of(items)), None => None },
                            None => None,
                        },
                    }),
                },
            },
        },
    }
}

/// The bit pattern of a number, or `default`.
fn number_or(v: Option<&JsonValue>, default: u64) -> (r: u64)
    ensures
        r == match opt_view(v) {
            Some(x) => match as_f64(x) { Some(b) => b, None => default },
            None => default,
        },
{
    match v {
        Some(x) => match value_f64(x) { Some(b) => b, None => default },
        None => default,
    }
}

/// The texts among the items of an optional array value.
fn opt_strings(v: Option<&JsonValue>) -> (r: Option<Vec<String>>)
    ensures
        r.deep_view() == match opt_view(v) {
            Some(x) => match as_array(x) { Some(items) => Some(strings_of(items)), None => None },
            None => None::<Seq<Seq<char>>>,
        },
{
    match v {
        Some(x) => match value_array(x) {
            Some(items) => Some(array_strings(items)),
            None => None,
        },
        None => None,
    }
}

/// Whether the characters of `s` are exactly `word`.
fn text_is(s: &String, word: &str) -> (r: bool)
    ensures
        r == (s@ == word@),
{
    let w = String::from_str(word);
    *s == w
}

/// The variable at position `i` of a registry file.
pub fn parse_registry_variable(v: &JsonValue, i: usize) -> (r: AppResult<PlantVariable>)
    ensures
        match registry_variable(v.deep_view(), i as int) {
            Ok(x) => r matches Ok(y) && y.deep_view() == x,
            Err(e) => r matches Err(y) && y@ == e,
        },
{
    let m = match value_object(v) {
        Some(m) => m,
        None => {
            let mut msg = indexed_text("variables", i);
            msg.append(" deve ser um objeto");
            return Err(AppError::InvalidArgument(msg));
        },
    };
    let name = match opt_text(member(m, "name")) {
        Some(s) => s.clone(),
        None => {
            let mut msg = indexed_text("variables", i);
            msg.append(".name");
            msg.append(" deve ser uma string");
            return Err(AppError::InvalidArgument(msg));
        },
    };
    let label = match opt_text(member(m, "type")) {
        Some(s) => s,
        None => {
            let mut msg = indexed_text("variables", i);
            msg.append(".type deve ser string");
            return Err(AppError::InvalidArgument(msg));
        },
    };
    let key = str_to_lowercase(crate::text::trim(label.as_str()).as_str());
    let var_type = if text_is(&key, "sensor") {
        VariableType::Sensor
    } else if text_is(&key, "atuador") || text_is(&key, "actuator") {
        VariableType::Atuador
    } else {
        return Err(invalid_argument("variables.type deve ser \"sensor\" ou \"atuador\""));
    };
    let id = match opt_filled_text(member(m, "id")) {
        Some(id) => id,
        None => concat2("var_", format_decimal(i).as_str()),
    };
    let unit = match opt_text(member(m, "unit")) {
        Some(u) => u.clone(),
        None => String::from_str("%"),
    };
    let setpoint = number_or(member(m, "setpoint"), 0);
    let pv_min = number_or(member_by_two_keys(m, "pv_min", "pvMin"), 0);
    let pv_max = number_or(member_by_two_keys(m, "pv_max", "pvMax"), 0x4059_0000_0000_0000);
    let linked_sensor_ids = opt_strings(member_by_two_keys(m, "linked_sensor_ids", "linkedSensorIds"));
    Ok(PlantVariable { id, name, var_type, unit, setpoint, pv_min, pv_max, linked_sensor_ids })
}

/// The variables of a registry file, or the error of the first that cannot be read.
pub open spec fn registry_variables(items: Seq<JsonView>) -> Result<Seq<VariableView>, ErrorView> {
    collect_results(Seq::new(items.len(), |i: int| registry_variable(items[i], i)))
}

/// The variables of a registry file.
pub fn parse_registry_variables(items: &Vec<JsonValue>) -> (r: AppResult<Vec<PlantVariable>>)
    ensures
        match registry_variables(items.deep_view()) {
            Ok(vs) => r matches Ok(x) && x.deep_view() == vs,
            Err(e) => r matches Err(x) && x@ == e,
        },
{
    let ghost its = items.deep_view();
    let ghost rs = Seq::new(its.len(), |i: int| registry_variable(its[i], i));
    let mut out: Vec<PlantVariable> = Vec::new();
    let mut i: usize = 0;
    assert(rs.take(0) =~= Seq::<Result<VariableView, ErrorView>>::empty());
    assert(out.deep_view() =~= Seq::<VariableView>::empty());
    while i < items.len()
        invariant
            i <= items.len(),
            its == items.deep_view(),
            rs == Seq::new(its.len(), |i: int| registry_variable(its[i], i)),
            collect_results(rs.take(i as int)) == Ok::<Seq<VariableView>, ErrorView>(out.deep_view()),
        decreases items.len() - i,
    {
        proof { lemma_collect_step(rs, i as int); }
        assert(rs[i as int] == registry_variable(items@[i as int].deep_view(), i as int));
        match parse_registry_variable(&items[i], i) {
            Ok(x) => {
                let ghost before = out.deep_view();
                out.push(x);
                assert(out.deep_view() =~= before.push(x.deep_view()));
            },
            Err(e) => {
                proof { lemma_collect_error_persists(rs, i as int + 1); }
                return Err(e);
            },
        }
        i += 1;
    }
    assert(rs.take(items.len() as int) =~= rs);
    Ok(out)
}

/// Each member of an object read as a schema value.
pub open spec fn config_entries(m: Seq<(Seq<char>, JsonView)>) -> Seq<Result<(Seq<char>, SchemaValue), ErrorView>> {
    m.map_values(|e: (Seq<char>, JsonView)| match schema_value_from_json(e.1) {
        Ok(x) => Ok((e.0, x)),
        Err(err) => Err(err),
    })
}

/// Each member of an object read as a controller parameter.
pub open spec fn param_entries(m: Seq<(Seq<char>, JsonView)>) -> Seq<Result<(Seq<char>, ControllerParamView), ()>> {
    m.map_values(|e: (Seq<char>, JsonView)| match param_from_json(e.1) {
        Some(p) => Ok((e.0, p)),
        None => Err(()),
    })
}

/// A driver configuration read from a JSON object: each member a schema value.
pub open spec fn config_from_json(v: JsonView) -> Option<Seq<(Seq<char>, SchemaValue)>> {
    match as_object(v) {
        None => None,
        Some(m) => match collect_results(config_entries(m)) {
            Ok(entries) => Some(entries),
            Err(_) => None,
        },
    }
}

/// Controller parameters read from a JSON object: each member a parameter.
pub open spec fn params_from_json(v: JsonView) -> Option<Seq<(Seq<char>, ControllerParamView)>> {
    match as_object(v) {
        None => None,
        Some(m) => match collect_results(param_entries(m)) {
            Ok(entries) => Some(entries),
            Err(_) => None,
        },
    }
}

/// A driver configuration read from JSON.
pub fn read_config(v: &JsonValue) -> (r: Option<Vec<ConfigEntry>>)
    ensures
        r.deep_view() == config_from_json(v.deep_view()),
{
    let m = match value_object(v) {
        Some(m) => m,
        None => return None,
    };
    let ghost jm = json_members(m);
    let ghost rs = config_entries(jm);
    let mut out: Vec<ConfigEntry> = Vec::new();
    let mut i: usize = 0;
    assert(rs.take(0) =~= Seq::<Result<(Seq<char>, SchemaValue), ErrorView>>::empty());
    assert(out.deep_view() =~= Seq::<(Seq<char>, SchemaValue)>::empty());
    while i < m.len()
        invariant
            i <= m.len(),
            jm == json_members(m),
            as_object(v.deep_view()) == Some(jm),
            rs == config_entries(jm),
            collect_results(rs.take(i as int)) == Ok::<Seq<(Seq<char>, SchemaValue)>, ErrorView>(out.deep_view()),
        decreases m.len() - i,
    {
        proof { lemma_collect_step(rs, i as int); }
        assert(jm[i as int] == (m@[i as int].key@, m@[i as int].value.deep_view()));
        match read_schema_value(&m[i].value) {
            Ok(x) => {
                let ghost before = out.deep_view();
                out.push(ConfigEntry { key: m[i].key.clone(), value: x });
                assert(out.deep_view() =~= before.push((m@[i as int].key@, x.deep_view())));
            },
            Err(_) => {
                proof { lemma_collect_error_persists(rs, i as int + 1); }
                return None;
            },
        }
        i += 1;
    }
    assert(rs.take(m.len() as int) =~= rs);
    Some(out)
}

/// Controller parameters read from JSON.
pub fn read_params(v: &JsonValue) -> (r: Option<Vec<ParamEntry>>)
    ensures
        r.deep_view() == params_from_json(v.deep_view()),
{
    let m = match value_object(v) {
        Some(m) => m,
        None => return None,
    };
    let ghost jm = json_members(m);
    let ghost rs = param_entries(jm);
    let mut out: Vec<ParamEntry> = Vec::new();
    let mut i: usize = 0;
    assert(rs.take(0) =~= Seq::<Result<(Seq<char>, ControllerParamView), ()>>::empty());
    assert(out.deep_view() =~= Seq::<(Seq<char>, ControllerParamView)>::empty());
    while i < m.len()
        invariant
            i <= m.len(),
            jm == json_members(m),
            as_object(v.deep_view()) == Some(jm),
            rs == param_entries(jm),
            collect_results(rs.take(i as int)) == Ok::<Seq<(Seq<char>, ControllerParamView)>, ()>(out.deep_view()),
        decreases m.len() - i,
    {
        proof { lemma_collect_step(rs, i as int); }
        assert(jm[i as int] == (m@[i as int].key@, m@[i as int].value.deep_view()));
        match read_param(&m[i].value) {
            Some(p) => {
                let ghost before = out.deep_view();
                out.push(ParamEntry { key: m[i].key.clone(), param: p });
                assert(out.deep_view() =~= before.push((m@[i as int].key@, p.deep_view())));
            },
            None => {
                proof { lemma_collect_error_persists(rs, i as int + 1); }
                return None;
            },
        }
        i += 1;
    }
    assert(rs.take(m.len() as int) =~= rs);
    Some(out)
}

/// What the message of a value that cannot be read says after its context.
pub open spec fn unreadable_detail() -> Seq<char> {
    "formato não reconhecido"@
}

/// The driver of a registry file, if it names one.
pub open spec fn registry_driver(m: Seq<(Seq<char>, JsonView)>) -> Result<Option<ImportedDriverView>, ErrorView> {
    match member_of(m, "driver"@) {
        None => Ok(None),
        Some(d) => match as_object(d) {
            None => Err(not_object("driver"@)),
            Some(dm) => match filled_text(member_by_keys(dm, seq!["plugin_id"@, "pluginId"@])) {
                None => Err(ErrorView::InvalidArgument("driver.plugin_id deve ser uma string não vazia"@)),
                Some(plugin_id) => {
                    let plugin_name = match filled_text(member_by_keys(dm, seq!["plugin_name"@, "pluginName"@])) {
                        Some(n) => n,
                        None => plugin_id,
                    };
                    let config = match member_of(dm, "config"@) {
                        None => Some(Seq::empty()),
                        Some(c) => if c is Null { Some(Seq::empty()) } else { config_from_json(c) },
                    };
                    match config {
                        None => Err(ErrorView::InvalidArgument("driver.config inválido: "@ + unreadable_detail())),
                        Some(config) => Ok(Some(ImportedDriverView { plugin_id, plugin_name, config })),
                    }
                },
            },
        },
    }
}

/// The driver of a registry file, if it names one.
pub fn parse_registry_driver(root: &Vec<JsonMember>) -> (r: AppResult<Option<ImportedWorkspaceDriverResponse>>)
    ensures
        match registry_driver(json_members(root)) {
            Ok(d) => r matches Ok(x) && x.deep_view() == d,
            Err(e) => r matches Err(x) && x@ == e,
        },
{
    let d = match member(root, "driver") {
        Some(d) => d,
        None => return Ok(None),
    };
    let dm = match value_object(d) {
        Some(dm) => dm,
        None => return Err(AppError::InvalidArgument(concat2("driver", " deve ser um objeto"))),
    };
    let plugin_id = match opt_filled_text(member_by_two_keys(dm, "plugin_id", "pluginId")) {
        Some(id) => id,
        None => return Err(invalid_argument("driver.plugin_id deve ser uma string não vazia")),
    };
    let plugin_name = match opt_filled_text(member_by_two_keys(dm, "plugin_name", "pluginName")) {
        Some(n) => n,
        None => plugin_id.clone(),
    };
    let config = match member(dm, "config") {
        None => Some(Vec::new()),
        Some(c) => match c {
            JsonValue::Null => Some(Vec::new()),
            _ => read_config(c),
        },
    };
    match config {
        Some(config) => {
            proof {
                if member_of(json_members(dm), "config"@) is None || member_of(json_members(dm), "config"@)->Some_0 is Null {
                    assert(config.deep_view() =~= Seq::<(Seq<char>, SchemaValue)>::empty());
                }
            }
            Ok(Some(ImportedWorkspaceDriverResponse { plugin_id, plugin_name, config }))
        },
        None => Err(AppError::InvalidArgument(concat2("driver.config inválido: ", "formato não reconhecido"))),
    }
}

/// The controller at position `i` of a registry file: it is read inactive.
pub open spec fn registry_controller(v: JsonView, i: int) -> Result<ImportedControllerView, ErrorView> {
    match as_object(v) {
        None => Err(not_object(indexed("controllers"@, i))),
        Some(m) => match filled_text(member_by_keys(m, seq!["plugin_id"@, "pluginId"@])) {
                None => Err(ErrorView::InvalidArgument(indexed("controllers"@, i) + ".plugin_id inválido"@)),
                Some(plugin_id) => {
                    let plugin_name = match filled_text(member_by_keys(m, seq!["plugin_name"@, "pluginName"@])) {
                        Some(n) => n,
                        None => plugin_id,
                    };
                    let params = match member_of(m, "params"@) {
                        None => Some(Seq::empty()),
                        Some(p) => if p is Null { Some(Seq::empty()) } else { params_from_json(p) },
                    };
                    match params {
                        None => Err(ErrorView::InvalidArgument(indexed("controllers"@, i) + ".params inválido: "@ + unreadable_detail())),
                        Some(params) => Ok(ImportedControllerView {
                            id: match filled_text(member_of(m, "id"@)) {
                                Some(id) => id,
                                None => "ctrl_imported_"@ + decimal_of(i as nat),
                            },
                            plugin_id,
                            plugin_name,
                            name: match filled_text(member_of(m, "name"@)) {
                                Some(n) => n,
                                None => plugin_name,
                            },
                            controller_type: match filled_text(member_by_keys(m, seq!["controller_type"@, "controllerType"@])) {
                                Some(t) => t,
                                None => plugin_name,
                            },
                            active: false,
                            input_variable_ids: match member_by_keys(m, seq!["input_variable_ids"@, "inputVariableIds"@]) {
                                Some(x) => match as_array(x) { Some(items) => strings_of(items), None => Seq::empty() },
                                None => Seq::empty(),
                            },
                            output_variable_ids: match member_by_keys(m, seq!["output_variable_ids"@, "outputVariableIds"@]) {
                                Some(x) => match as_array(x) { Some(items) => strings_of(items), None => Seq::empty() },
                                None => Seq::empty(),
                            },
                            params,
                        }),
                    }
                },
        },
    }
}

/// The texts among the items of an optional array value, none when it is not one.
fn strings_or_none(v: Option<&JsonValue>) -> (r: Vec<String>)
    ensures
        r.deep_view() == match opt_view(v) {
            Some(x) => match as_array(x) { Some(items) => strings_of(items), None => Seq::empty() },
            None => Seq::<Seq<char>>::empty(),
        },
{
    match opt_strings(v) {
        Some(s) => s,
        None => {
            let r: Vec<String> = Vec::new();
            assert(r.deep_view() =~= Seq::<Seq<char>>::empty());
            r
        },
    }
}

/// The controller at position `i` of a registry file.
pub fn parse_registry_controller(v: &JsonValue, i: usize) -> (r: AppResult<ImportedWorkspaceControllerResponse>)
    ensures
        match registry_controller(v.deep_view(), i as int) {
            Ok(c) => r matches Ok(x) && x.deep_view() == c,
            Err(e) => r matches Err(x) && x@ == e,
        },
{
    let m = match value_object(v) {
        Some(m) => m,
        None => {
            let mut msg = indexed_text("controllers", i);
            msg.append(" deve ser um objeto");
            return Err(AppError::InvalidArgument(msg));
        },
    };
    let plugin_id = match opt_filled_text(member_by_two_keys(m, "plugin_id", "pluginId")) {
        Some(id) => id,
        None => {
            let mut msg = indexed_text("controllers", i);
            msg.append(".plugin_id inválido");
            return Err(AppError::InvalidArgument(msg));
        },
    };
    let plugin_name = match opt_filled_text(member_by_two_keys(m, "plugin_name", "pluginName")) {
        Some(n) => n,
        None => plugin_id.clone(),
    };
    let params = match member(m, "params") {
        None => Some(Vec::new()),
        Some(p) => match p {
            JsonValue::Null => Some(Vec::new()),
            _ => read_params(p),
        },
    };
    let params = match params {
        Some(params) => {
            proof {
                if member_of(json_members(m), "params"@) is None || member_of(json_members(m), "params"@)->Some_0 is Null {
                    assert(params.deep_view() =~= Seq::<(Seq<char>, ControllerParamView)>::empty());
                }
            }
            params
        },
        None => {
            let mut msg = indexed_text("controllers", i);
            msg.append(".params inválido: ");
            msg.append("formato não reconhecido");
            return Err(AppError::InvalidArgument(msg));
        },
    };
    let id = match opt_filled_text(member(m, "id")) {
        Some(id) => id,
        None => concat2("ctrl_imported_", format_decimal(i).as_str()),
    };
    let name = match opt_filled_text(member(m, "name")) {
        Some(n) => n,
        None => plugin_name.clone(),
    };
    let controller_type = match opt_filled_text(member_by_two_keys(m, "controller_type", "controllerType")) {
        Some(t) => t,
        None => plugin_name.clone(),
    };
    let input_variable_ids = strings_or_none(member_by_two_keys(m, "input_variable_ids", "inputVariableIds"));
    let output_variable_ids = strings_or_none(member_by_two_keys(m, "output_variable_ids", "outputVariableIds"));
    Ok(ImportedWorkspaceControllerResponse {
        id,
        plugin_id,
        plugin_name,
        name,
        controller_type,
        active: false,
        input_variable_ids,
        output_variable_ids,
        params,
    })
}

/// The controllers of a registry file, or the error of the first that cannot be read.
pub open spec fn registry_controllers(items: Seq<JsonView>) -> Result<Seq<ImportedControllerView>, ErrorView> {
    collect_results(Seq::new(items.len(), |i: int| registry_controller(items[i], i)))
}

/// The controllers of a registry file.
pub fn parse_registry_controllers(items: &Vec<JsonValue>) -> (r: AppResult<Vec<ImportedWorkspaceControllerResponse>>)
    ensures
        match registry_controllers(items.deep_view()) {
            Ok(cs) => r matches Ok(x) && x.deep_view() == cs,
            Err(e) => r matches Err(x) && x@ == e,
        },
{
    let ghost its = items.deep_view();
    let ghost rs = Seq::new(its.len(), |i: int| registry_controller(its[i], i));
    let mut out: Vec<ImportedWorkspaceControllerResponse> = Vec::new();
    let mut i: usize = 0;
    assert(rs.take(0) =~= Seq::<Result<ImportedControllerView, ErrorView>>::empty());
    assert(out.deep_view() =~= Seq::<ImportedControllerView>::empty());
    while i < items.len()
        invariant
            i <= items.len(),
            its == items.deep_view(),
            rs == Seq::new(its.len(), |i: int| registry_controller(its[i], i)),
            collect_results(rs.take(i as int)) == Ok::<Seq<ImportedControllerView>, ErrorView>(out.deep_view()),
        decreases items.len() - i,
    {
        proof { lemma_collect_step(rs, i as int); }
        assert(rs[i as int] == registry_controller(items@[i as int].deep_view(), i as int));
        match parse_registry_controller(&items[i], i) {
            Ok(x) => {
                let ghost before = out.deep_view();
                out.push(x);
                assert(out.deep_view() =~= before.push(x.deep_view()));
            },
            Err(e) => {
                proof { lemma_collect_error_persists(rs, i as int + 1); }
                return Err(e);
            },
        }
        i += 1;
    }
    assert(rs.take(items.len() as int) =~= rs);
    Ok(out)
}

/// The key of the measured value of the variable at position `i`.
pub open spec fn pv_key(i: int) -> Seq<char> {
    var_label(i) + "_pv"@
}

/// The key of the setpoint of the variable at position `i`.
pub open spec fn sp_key(i: int) -> Seq<char> {
    var_label(i) + "_sp"@
}

/// The series of the variables, in order: a sensor has its measured value and
/// its setpoint, an actuator its manipulated value.
pub open spec fn series_of(vs: Seq<VariableView>) -> Seq<(Seq<char>, Seq<char>, Seq<char>)>
    decreases vs.len(),
{
    if vs.len() == 0 {
        Seq::empty()
    } else {
        let i = vs.len() - 1;
        let prev = series_of(vs.drop_last());
        let v = vs.last();
        if v.var_type == VariableType::Sensor {
            prev.push((pv_key(i), v.name + " PV"@, "pv"@)).push((sp_key(i), v.name + " SP"@, "sp"@))
        } else {
            prev.push((pv_key(i), v.name, "mv"@))
        }
    }
}

/// The key `var_<i><suffix>`.
fn series_key(i: usize, suffix: &str) -> (r: String)
    ensures
        r@ == var_label(i as int) + suffix@,
{
    let mut k = concat2("var_", format_decimal(i).as_str());
    k.append(suffix);
    k
}

/// The series of the recorded data of the plant `plant_id`.
pub fn build_imported_series_catalog(plant_id: &str, variables: &Vec<PlantVariable>) -> (r: ImportedSeriesCatalogResponse)
    ensures
        r.plant_id@ == plant_id@,
        r.series.deep_view() == series_of(variables.deep_view()),
{
    let ghost vs = variables.deep_view();
    let mut series: Vec<ImportedSeriesDescriptorResponse> = Vec::new();
    let mut i: usize = 0;
    assert(vs.take(0) =~= Seq::<VariableView>::empty());
    assert(series.deep_view() =~= series_of(vs.take(0)));
    while i < variables.len()
        invariant
            i <= variables.len(),
            vs == variables.deep_view(),
            series.deep_view() == series_of(vs.take(i as int)),
        decreases variables.len() - i,
    {
        let v = &variables[i];
        assert(vs.take(i + 1).drop_last() =~= vs.take(i as int));
        assert(vs.take(i + 1).last() == v.deep_view());
        let ghost before = series.deep_view();
        if v.var_type == VariableType::Sensor {
            let pv = ImportedSeriesDescriptorResponse {
                key: series_key(i, "_pv"),
                label: concat2(v.name.as_str(), " PV"),
                role: String::from_str("pv"),
            };
            let sp = ImportedSeriesDescriptorResponse {
                key: series_key(i, "_sp"),
                label: concat2(v.name.as_str(), " SP"),
                role: String::from_str("sp"),
            };
            series.push(pv);
            series.push(sp);
            assert(series.deep_view() =~= before.push((pv_key(i as int), v.name@ + " PV"@, "pv"@)).push((sp_key(i as int), v.name@ + " SP"@, "sp"@)));
        } else {
            let mv = ImportedSeriesDescriptorResponse {
                key: series_key(i, "_pv"),
                label: v.name.clone(),
                role: String::from_str("mv"),
            };
            series.push(mv);
            assert(series.deep_view() =~= before.push((pv_key(i as int), v.name@, "mv"@)));
        }
        i += 1;
    }
    assert(vs.take(variables.len() as int) =~= vs);
    ImportedSeriesCatalogResponse { plant_id: String::from_str(plant_id), series }
}

/// What a plant file gives, its fresh id aside: the plant's name, its sample time
/// (absent when the file leaves it to the pace of its recorded data), its
/// variables, driver and controllers, and the recorded samples, each a map from
/// series key to the bit pattern of a value.
pub struct OpenedPlantView {
    pub name: Seq<char>,
    pub sample_time_ms: Option<u64>,
    pub variables: Seq<VariableView>,
    pub driver: Option<ImportedDriverView>,
    pub controllers: Seq<ImportedControllerView>,
    pub data: Seq<Seq<(Seq<char>, u64)>>,
}

/// What a plant file gives.
pub struct OpenedPlantFile {
    pub from_registry: bool,
    pub id: String,
    pub name: String,
    pub sample_time_ms: Option<u64>,
    pub variables: Vec<PlantVariable>,
    pub driver: Option<ImportedWorkspaceDriverResponse>,
    pub controllers: Vec<ImportedWorkspaceControllerResponse>,
    pub data: Vec<Vec<Keyed<u64>>>,
    pub series_catalog: ImportedSeriesCatalogResponse,
}

impl DeepView for OpenedPlantFile {
    type V = OpenedPlantView;

    open spec fn deep_view(&self) -> OpenedPlantView {
        OpenedPlantView {
            name: self.name@,
            sample_time_ms: self.sample_time_ms,
            variables: self.variables.deep_view(),
            driver: self.driver.deep_view(),
            controllers: self.controllers.deep_view(),
            data: self.data.deep_view(),
        }
    }
}

/// Whether `id` is a fresh id of an imported plant: `imported_` and 32 characters.
pub open spec fn fresh_import_id(id: Seq<char>) -> bool {
    id.len() == 41 && id.take(9) == "imported_"@
}

/// Whether `r` is the file `f` opened under `id`: its parts, and the series of its variables.
pub open spec fn opened_as(r: OpenedPlantFile, f: OpenedPlantView) -> bool {
    &&& r.deep_view() == f
    &&& fresh_import_id(r.id@)
    &&& r.series_catalog.plant_id@ == r.id@
    &&& r.series_catalog.series.deep_view() == series_of(f.variables)
}

/// What a registry file (a file with `variables`) gives.
pub open spec fn registry_file(m: Seq<(Seq<char>, JsonView)>, file_name: Seq<char>) -> Result<OpenedPlantView, ErrorView> {
    match member_of(m, "variables"@) {
        None => Err(ErrorView::InvalidArgument("Campo \"variables\" ausente"@)),
        Some(vv) => match as_array(vv) {
            None => Err(not_array("variables"@)),
            Some(items) => if items.len() == 0 {
                Err(ErrorView::InvalidArgument("Campo \"variables\" está vazio"@))
            } else {
                match registry_variables(items) {
                    Err(e) => Err(e),
                    Ok(variables) => match registry_driver(m) {
                        Err(e) => Err(e),
                        Ok(driver) => {
                            let controllers = match member_of(m, "controllers"@) {
                                None => Ok(Seq::empty()),
                                Some(cv) => match as_array(cv) {
                                    None => Err(not_array("controllers"@)),
                                    Some(cs) => registry_controllers(cs),
                                },
                            };
                            match controllers {
                                Err(e) => Err(e),
                                Ok(controllers) => Ok(OpenedPlantView {
                                    name: match filled_text(member_of(m, "name"@)) {
                                        Some(n) => n,
                                        None => file_name,
                                    },
                                    sample_time_ms: Some(match member_by_keys(m, seq!["sample_time_ms"@, "sampleTimeMs"@]) {
                                        Some(x) => match as_u64(x) { Some(ms) => ms, None => 100 },
                                        None => 100,
                                    }),
                                    variables,
                                    driver,
                                    controllers,
                                    data: Seq::empty(),
                                }),
                            }
                        },
                    },
                }
            },
        },
    }
}

/// A fresh id for an imported plant.
fn fresh_imported_id() -> (r: String)
    ensures
        fresh_import_id(r@),
{
    proof { reveal_strlit("imported_"); }
    let fresh = random_uuid_simple();
    let id = concat2("imported_", fresh.as_str());
    assert(id@.take(9) =~= "imported_"@);
    id
}

/// What a registry file gives.
pub fn open_registry_plant_file(root: &Vec<JsonMember>, file_name: &str) -> (r: AppResult<OpenedPlantFile>)
    ensures
        match registry_file(json_members(root), file_name@) {
            Ok(f) => r matches Ok(x) && opened_as(x, f) && x.from_registry,
            Err(e) => r matches Err(x) && x@ == e,
        },
{
    let items = match member(root, "variables") {
        Some(vv) => match value_array(vv) {
            Some(items) => items,
            None => return Err(AppError::InvalidArgument(concat2("variables", " deve ser um array"))),
        },
        None => return Err(invalid_argument("Campo \"variables\" ausente")),
    };
    if items.len() == 0 {
        return Err(invalid_argument("Campo \"variables\" está vazio"));
    }
    let variables = parse_registry_variables(items)?;
    let name = match opt_filled_text(member(root, "name")) {
        Some(n) => n,
        None => String::from_str(file_name),
    };
    let sample_time_ms = match member_by_two_keys(root, "sample_time_ms", "sampleTimeMs") {
        Some(x) => match value_u64(x) {
            Some(ms) => ms,
            None => 100,
        },
        None => 100,
    };
    let driver = parse_registry_driver(root)?;
    let controllers = match member(root, "controllers") {
        None => {
            let c: Vec<ImportedWorkspaceControllerResponse> = Vec::new();
            assert(c.deep_view() =~= Seq::<ImportedControllerView>::empty());
            c
        },
        Some(cv) => match value_array(cv) {
            Some(cs) => parse_registry_controllers(cs)?,
            None => return Err(AppError::InvalidArgument(concat2("controllers", " deve ser um array"))),
        },
    };
    let id = fresh_imported_id();
    let series_catalog = build_imported_series_catalog(id.as_str(), &variables);
    let data: Vec<Vec<Keyed<u64>>> = Vec::new();
    assert(data.deep_view() =~= Seq::<Seq<(Seq<char>, u64)>>::empty());
    Ok(OpenedPlantFile {
        from_registry: true,
        id,
        name,
        sample_time_ms: Some(sample_time_ms),
        variables,
        driver,
        controllers,
        data,
        series_catalog,
    })
}

/// The bit pattern of a number, or 0 when the value is not a number.
pub open spec fn value_or_zero(v: JsonView) -> u64 {
    match as_f64(v) {
        Some(b) => b,
        None => 0,
    }
}

/// A sensor of an export: the id it has in the export, and its variable at position `i`.
pub open spec fn legacy_sensor(v: JsonView, i: int) -> Result<(Seq<char>, VariableView), ErrorView> {
    match as_object(v) {
        None => Err(not_object(indexed("sensors"@, i))),
        Some(m) => match text_of(member_of(m, "id"@)) {
            None => Err(not_string(indexed("sensors"@, i) + ".id"@)),
            Some(id) => match text_of(member_of(m, "name"@)) {
                None => Err(not_string(indexed("sensors"@, i) + ".name"@)),
                Some(name) => Ok((id, VariableView {
                    id: var_label(i),
                    name,
                    var_type: VariableType::Sensor,
                    unit: match text_of(member_of(m, "unit"@)) { Some(u) => u, None => "%"@ },
                    setpoint: 0,
                    pv_min: 0,
                    pv_max: hundred_bits(),
                    linked_sensor_ids: None,
                })),
            },
        },
    }
}

/// The id a linked sensor gets: the id of its variable, when the export has it.
pub open spec fn linked_id(sensor_pairs: Seq<(Seq<char>, usize)>, s: Seq<char>) -> Seq<char> {
    match last_match(sensor_pairs, s) {
        Some(k) => var_label(k as int),
        None => s,
    }
}

/// An actuator of an export: the id it has in the export, and its variable at
/// position `offset + i`.
pub open spec fn legacy_actuator(v: JsonView, i: int, offset: int, sensor_pairs: Seq<(Seq<char>, usize)>) -> Result<(Seq<char>, VariableView), ErrorView> {
    match as_object(v) {
        None => Err(not_object(indexed("actuators"@, i))),
        Some(m) => match text_of(member_of(m, "id"@)) {
            None => Err(not_string(indexed("actuators"@, i) + ".id"@)),
            Some(id) => match text_of(member_of(m, "name"@)) {
                None => Err(not_string(indexed("actuators"@, i) + ".name"@)),
                Some(name) => Ok((id, VariableView {
                    id: var_label(offset + i),
                    name,
                    var_type: VariableType::Atuador,
                    unit: match text_of(member_of(m, "unit"@)) { Some(u) => u, None => "%"@ },
                    setpoint: 0,
                    pv_min: 0,
                    pv_max: hundred_bits(),
                    linked_sensor_ids: match member_of(m, "linkedSensorIds"@) {
                        Some(x) => match as_array(x) {
                            Some(items) => Some(strings_of(items).map_values(|s: Seq<char>| linked_id(sensor_pairs, s))),
                            None => None,
                        },
                        None => None,
                    },
                })),
            },
        },
    }
}

/// A setpoint of an export: its id and the id of its sensor.
pub open spec fn legacy_setpoint(v: JsonView, i: int) -> Result<(Seq<char>, Seq<char>), ErrorView> {
    match as_object(v) {
        None => Err(not_object(indexed("setpoints"@, i))),
        Some(m) => match text_of(member_of(m, "id"@)) {
            None => Err(not_string(indexed("setpoints"@, i) + ".id"@)),
            Some(id) => match text_of(member_of(m, "sensorId"@)) {
                None => Err(not_string(indexed("setpoints"@, i) + ".sensorId"@)),
                Some(sensor) => Ok((id, sensor)),
            },
        },
    }
}

/// The values a sample records for the sensors the export knows.
pub open spec fn sensor_values(ms: Seq<(Seq<char>, JsonView)>, sensor_pairs: Seq<(Seq<char>, usize)>) -> Seq<(Seq<char>, u64)>
    decreases ms.len(),
{
    if ms.len() == 0 {
        Seq::empty()
    } else {
        let prev = sensor_values(ms.drop_last(), sensor_pairs);
        match last_match(sensor_pairs, ms.last().0) {
            Some(k) => prev.push((pv_key(k as int), value_or_zero(ms.last().1))),
            None => prev,
        }
    }
}

/// The setpoints a sample records for the setpoints whose sensor the export knows.
pub open spec fn setpoint_values(
    ms: Seq<(Seq<char>, JsonView)>,
    setpoint_pairs: Seq<(Seq<char>, Seq<char>)>,
    sensor_pairs: Seq<(Seq<char>, usize)>,
) -> Seq<(Seq<char>, u64)>
    decreases ms.len(),
{
    if ms.len() == 0 {
        Seq::empty()
    } else {
        let prev = setpoint_values(ms.drop_last(), setpoint_pairs, sensor_pairs);
        match last_match(setpoint_pairs, ms.last().0) {
            Some(sensor) => match last_match(sensor_pairs, sensor) {
                Some(k) => prev.push((sp_key(k as int), value_or_zero(ms.last().1))),
                None => prev,
            },
            None => prev,
        }
    }
}

/// The values a sample records for the actuators the export knows.
pub open spec fn actuator_values(ms: Seq<(Seq<char>, JsonView)>, actuator_pairs: Seq<(Seq<char>, usize)>) -> Seq<(Seq<char>, u64)>
    decreases ms.len(),
{
    if ms.len() == 0 {
        Seq::empty()
    } else {
        let prev = actuator_values(ms.drop_last(), actuator_pairs);
        match last_match(actuator_pairs, ms.last().0) {
            Some(k) => prev.push((pv_key(k as int), value_or_zero(ms.last().1))),
            None => prev,
        }
    }
}

/// The sample at position `i` of an export: its time, then the values of its
/// sensors, setpoints and actuators, a later value under a key replacing an earlier one.
pub open spec fn legacy_point(
    v: JsonView,
    i: int,
    sensor_pairs: Seq<(Seq<char>, usize)>,
    setpoint_pairs: Seq<(Seq<char>, Seq<char>)>,
    actuator_pairs: Seq<(Seq<char>, usize)>,
) -> Result<Seq<(Seq<char>, u64)>, ErrorView> {
    let ctx = indexed("data"@, i);
    match as_object(v) {
        None => Err(not_object(ctx)),
        Some(m) => match text_time(member_of(m, "time"@)) {
            None => Err(not_number(ctx + ".time"@)),
            Some(t) => match member_of(m, "sensors"@) {
                None => Err(ErrorView::InvalidArgument(ctx + ".sensors ausente"@)),
                Some(sv) => match as_object(sv) {
                    None => Err(not_object(ctx + ".sensors"@)),
                    Some(sm) => match member_of(m, "setpoints"@) {
                        None => Err(ErrorView::InvalidArgument(ctx + ".setpoints ausente"@)),
                        Some(pv) => match as_object(pv) {
                            None => Err(not_object(ctx + ".setpoints"@)),
                            Some(pm) => match member_of(m, "actuators"@) {
                                None => Err(ErrorView::InvalidArgument(ctx + ".actuators ausente"@)),
                                Some(av) => match as_object(av) {
                                    None => Err(not_object(ctx + ".actuators"@)),
                                    Some(am) => Ok(last_wins(seq![("time"@, t)] + sensor_values(sm, sensor_pairs)
                                        + setpoint_values(pm, setpoint_pairs, sensor_pairs)
                                        + actuator_values(am, actuator_pairs))),
                                },
                            },
                        },
                    },
                },
            },
        },
    }
}

/// The number an optional value holds.
pub open spec fn text_time(o: Option<JsonView>) -> Option<u64> {
    match o {
        Some(v) => as_f64(v),
        None => None,
    }
}

/// The pairs of export ids and positions of a list of parsed items.
pub open spec fn export_pairs<T>(parsed: Seq<(Seq<char>, T)>, offset: int) -> Seq<(Seq<char>, usize)> {
    Seq::new(parsed.len(), |i: int| (parsed[i].0, (offset + i) as usize))
}

/// What an export of recorded data (a file without `variables`) gives.
pub open spec fn legacy_file(m: Seq<(Seq<char>, JsonView)>, file_name: Seq<char>) -> Result<OpenedPlantView, ErrorView> {
    let meta = match member_of(m, "meta"@) {
        Some(x) => match as_object(x) { Some(mm) => Ok(mm), None => Err(not_object("meta"@)) },
        None => Ok(m),
    };
    match meta {
        Err(e) => Err(e),
        Ok(meta) => match required_array(m, "sensors"@) {
            Err(e) => Err(e),
            Ok(sensors) => match required_array(m, "actuators"@) {
                Err(e) => Err(e),
                Ok(actuators) => match required_array(m, "setpoints"@) {
                    Err(e) => Err(e),
                    Ok(setpoints) => match required_array(m, "data"@) {
                        Err(e) => Err(e),
                        Ok(data) => if data.len() == 0 {
                            Err(ErrorView::InvalidArgument("Campo \"data\" está vazio"@))
                        } else {
                            match collect_results(sensor_results(sensors)) {
                                Err(e) => Err(e),
                                Ok(ss) => {
                                    let sp = export_pairs(ss, 0);
                                    match collect_results(actuator_results(actuators, ss.len() as int, sp)) {
                                        Err(e) => Err(e),
                                        Ok(aa) => {
                                            let ap = export_pairs(aa, ss.len() as int);
                                            match collect_results(setpoint_results(setpoints)) {
                                                Err(e) => Err(e),
                                                Ok(stp) => match collect_results(point_results(data, sp, stp, ap)) {
                                                    Err(e) => Err(e),
                                                    Ok(points) => Ok(OpenedPlantView {
                                                        name: match text_of(member_of(meta, "name"@)) {
                                                            Some(n) => if blank(n) { file_name } else { n },
                                                            None => file_name,
                                                        },
                                                        sample_time_ms: match member_of(meta, "sampleTimeMs"@) {
                                                            Some(x) => as_u64(x),
                                                            None => None,
                                                        },
                                                        variables: variables_of(ss) + variables_of(aa),
                                                        driver: None,
                                                        controllers: Seq::empty(),
                                                        data: points,
                                                    }),
                                                },
                                            }
                                        },
                                    }
                                },
                            }
                        },
                    },
                },
            },
        },
    }
}

/// Each sensor of an export read in turn.
pub open spec fn sensor_results(items: Seq<JsonView>) -> Seq<Result<(Seq<char>, VariableView), ErrorView>> {
    Seq::new(items.len(), |i: int| legacy_sensor(items[i], i))
}

/// Each actuator of an export read in turn.
pub open spec fn actuator_results(items: Seq<JsonView>, offset: int, sp: Seq<(Seq<char>, usize)>) -> Seq<Result<(Seq<char>, VariableView), ErrorView>> {
    Seq::new(items.len(), |i: int| legacy_actuator(items[i], i, offset, sp))
}

/// Each setpoint of an export read in turn.
pub open spec fn setpoint_results(items: Seq<JsonView>) -> Seq<Result<(Seq<char>, Seq<char>), ErrorView>> {
    Seq::new(items.len(), |i: int| legacy_setpoint(items[i], i))
}

/// Each sample of an export read in turn.
pub open spec fn point_results(
    items: Seq<JsonView>,
    sp: Seq<(Seq<char>, usize)>,
    stp: Seq<(Seq<char>, Seq<char>)>,
    ap: Seq<(Seq<char>, usize)>,
) -> Seq<Result<Seq<(Seq<char>, u64)>, ErrorView>> {
    Seq::new(items.len(), |i: int| legacy_point(items[i], i, sp, stp, ap))
}

/// The variables of parsed items.
pub open spec fn variables_of(parsed: Seq<(Seq<char>, VariableView)>) -> Seq<VariableView> {
    parsed.map_values(|e: (Seq<char>, VariableView)| e.1)
}

/// One more parsed item gives one more variable.
proof fn lemma_variables_of_step(s: Seq<(Seq<char>, VariableView)>, n: int)
    requires
        0 <= n < s.len(),
    ensures
        variables_of(s.take(n + 1)) == variables_of(s.take(n)).push(s[n].1),
{
    assert(variables_of(s.take(n + 1)) =~= variables_of(s.take(n)).push(s[n].1));
}

/// The items of the member `key`, which must be present and an array.
pub open spec fn required_array(m: Seq<(Seq<char>, JsonView)>, key: Seq<char>) -> Result<Seq<JsonView>, ErrorView> {
    match member_of(m, key) {
        None => Err(ErrorView::InvalidArgument("Campo \""@ + key + "\" ausente"@)),
        Some(v) => match as_array(v) {
            None => Err(not_array(key)),
            Some(items) => Ok(items),
        },
    }
}

/// An item of an export: the id it has in the export, and its variable.
pub struct ExportedVariable {
    pub export_id: String,
    pub variable: PlantVariable,
}

impl DeepView for ExportedVariable {
    type V = (Seq<char>, VariableView);

    open spec fn deep_view(&self) -> (Seq<char>, VariableView) {
        (self.export_id@, self.variable.deep_view())
    }
}

/// The position of the last entry whose key is `key`, if any.
pub fn find_last_key<T: DeepView>(entries: &Vec<Keyed<T>>, key: &String) -> (r: Option<usize>)
    ensures
        match r {
            Some(i) => i < entries.len() && last_match(entries.deep_view(), key@) == Some(entries.deep_view()[i as int].1),
            None => last_match(entries.deep_view(), key@) is None,
        },
{
    let ghost s = entries.deep_view();
    let mut j: usize = entries.len();
    assert(s.take(s.len() as int) =~= s);
    while j > 0
        invariant
            j <= entries.len(),
            s == entries.deep_view(),
            last_match(s, key@) == last_match(s.take(j as int), key@),
        decreases j,
    {
        assert(s.take(j as int).last() == s[j - 1]);
        assert(s[j - 1].0 == entries@[j - 1].key@);
        if entries[j - 1].key == *key {
            return Some(j - 1);
        }
        assert(s.take(j as int).drop_last() =~= s.take(j - 1));
        j -= 1;
    }
    assert(s.take(0) =~= Seq::<(Seq<char>, T::V)>::empty());
    None
}

/// Appends `(key, value)` to the insertions of a map and stores it in the map.
proof fn lemma_last_wins_push<V>(ins: Seq<(Seq<char>, V)>, k: Seq<char>, v: V)
    ensures
        last_wins(ins.push((k, v))) == crate::keyed::upserted(last_wins(ins), k, v),
{
    assert(ins.push((k, v)).drop_last() =~= ins);
}

/// A sensor of an export.
pub fn read_legacy_sensor(v: &JsonValue, i: usize) -> (r: AppResult<ExportedVariable>)
    ensures
        match legacy_sensor(v.deep_view(), i as int) {
            Ok(x) => r matches Ok(y) && y.deep_view() == x,
            Err(e) => r matches Err(y) && y@ == e,
        },
{
    let m = match value_object(v) {
        Some(m) => m,
        None => {
            let mut msg = indexed_text("sensors", i);
            msg.append(" deve ser um objeto");
            return Err(AppError::InvalidArgument(msg));
        },
    };
    let export_id = match opt_text(member(m, "id")) {
        Some(s) => s.clone(),
        None => {
            let mut msg = indexed_text("sensors", i);
            msg.append(".id");
            msg.append(" deve ser uma string");
            return Err(AppError::InvalidArgument(msg));
        },
    };
    let name = match opt_text(member(m, "name")) {
        Some(s) => s.clone(),
        None => {
            let mut msg = indexed_text("sensors", i);
            msg.append(".name");
            msg.append(" deve ser uma string");
            return Err(AppError::InvalidArgument(msg));
        },
    };
    let unit = match opt_text(member(m, "unit")) {
        Some(u) => u.clone(),
        None => String::from_str("%"),
    };
    Ok(ExportedVariable {
        export_id,
        variable: PlantVariable {
            id: concat2("var_", format_decimal(i).as_str()),
            name,
            var_type: VariableType::Sensor,
            unit,
            setpoint: 0,
            pv_min: 0,
            pv_max: 0x4059_0000_0000_0000,
            linked_sensor_ids: None,
        },
    })
}

/// The ids of linked sensors, each the id of its variable when the export has it.
fn linked_ids(names: Vec<String>, sensor_pairs: &Vec<Keyed<usize>>) -> (r: Vec<String>)
    ensures
        r.deep_view() == names.deep_view().map_values(|s: Seq<char>| linked_id(sensor_pairs.deep_view(), s)),
{
    let mut out: Vec<String> = Vec::new();
    let mut i: usize = 0;
    while i < names.len()
        invariant
            i <= names.len(),
            out.len() == i,
            forall|k: int| 0 <= k < i ==> (#[trigger] out.deep_view()[k]) == linked_id(sensor_pairs.deep_view(), names.deep_view()[k]),
        decreases names.len() - i,
    {
        let id = match find_last_key(sensor_pairs, &names[i]) {
            Some(j) => {
                assert(sensor_pairs.deep_view()[j as int].1 == sensor_pairs@[j as int].value);
                concat2("var_", format_decimal(sensor_pairs[j].value).as_str())
            },
            None => names[i].clone(),
        };
        let ghost before = out.deep_view();
        out.push(id);
        assert(out.deep_view() =~= before.push(id@));
        i += 1;
    }
    assert(out.deep_view() =~= names.deep_view().map_values(|s: Seq<char>| linked_id(sensor_pairs.deep_view(), s)));
    out
}

/// An actuator of an export, at position `offset + i` among the variables.
pub fn read_legacy_actuator(v: &JsonValue, i: usize, offset: usize, sensor_pairs: &Vec<Keyed<usize>>) -> (r: AppResult<ExportedVariable>)
    requires
        offset + i < usize::MAX,
    ensures
        match legacy_actuator(v.deep_view(), i as int, offset as int, sensor_pairs.deep_view()) {
            Ok(x) => r matches Ok(y) && y.deep_view() == x,
            Err(e) => r matches Err(y) && y@ == e,
        },
{
    let m = match value_object(v) {
        Some(m) => m,
        None => {
            let mut msg = indexed_text("actuators", i);
            msg.append(" deve ser um objeto");
            return Err(AppError::InvalidArgument(msg));
        },
    };
    let export_id = match opt_text(member(m, "id")) {
        Some(s) => s.clone(),
        None => {
            let mut msg = indexed_text("actuators", i);
            msg.append(".id");
            msg.append(" deve ser uma string");
            return Err(AppError::InvalidArgument(msg));
        },
    };
    let name = match opt_text(member(m, "name")) {
        Some(s) => s.clone(),
        None => {
            let mut msg = indexed_text("actuators", i);
            msg.append(".name");
            msg.append(" deve ser uma string");
            return Err(AppError::InvalidArgument(msg));
        },
    };
    let unit = match opt_text(member(m, "unit")) {
        Some(u) => u.clone(),
        None => String::from_str("%"),
    };
    let linked_sensor_ids = match opt_strings(member(m, "linkedSensorIds")) {
        Some(names) => Some(linked_ids(names, sensor_pairs)),
        None => None,
    };
    Ok(ExportedVariable {
        export_id,
        variable: PlantVariable {
            id: concat2("var_", format_decimal(offset + i).as_str()),
            name,
            var_type: VariableType::Atuador,
            unit,
            setpoint: 0,
            pv_min: 0,
            pv_max: 0x4059_0000_0000_0000,
            linked_sensor_ids,
        },
    })
}

/// A setpoint of an export: its id and the id of its sensor.
pub fn read_legacy_setpoint(v: &JsonValue, i: usize) -> (r: AppResult<Keyed<String>>)
    ensures
        match legacy_setpoint(v.deep_view(), i as int) {
            Ok(x) => r matches Ok(y) && y.deep_view() == x,
            Err(e) => r matches Err(y) && y@ == e,
        },
{
    let m = match value_object(v) {
        Some(m) => m,
        None => {
            let mut msg = indexed_text("setpoints", i);
            msg.append(" deve ser um objeto");
            return Err(AppError::InvalidArgument(msg));
        },
    };
    let id = match opt_text(member(m, "id")) {
        Some(s) => s.clone(),
        None => {
            let mut msg = indexed_text("setpoints", i);
            msg.append(".id");
            msg.append(" deve ser uma string");
            return Err(AppError::InvalidArgument(msg));
        },
    };
    let sensor = match opt_text(member(m, "sensorId")) {
        Some(s) => s.clone(),
        None => {
            let mut msg = indexed_text("setpoints", i);
            msg.append(".sensorId");
            msg.append(" deve ser uma string");
            return Err(AppError::InvalidArgument(msg));
        },
    };
    Ok(Keyed { key: id, value: sensor })
}

/// The bit pattern of a number, or 0.
fn number_or_zero(v: &JsonValue) -> (r: u64)
    ensures
        r == value_or_zero(v.deep_view()),
{
    match value_f64(v) {
        Some(b) => b,
        None => 0,
    }
}

/// The sample at position `i` of an export.
#[verifier::rlimit(40)]
pub fn read_legacy_point(
    v: &JsonValue,
    i: usize,
    sensor_pairs: &Vec<Keyed<usize>>,
    setpoint_pairs: &Vec<Keyed<String>>,
    actuator_pairs: &Vec<Keyed<usize>>,
) -> (r: AppResult<Vec<Keyed<u64>>>)
    ensures
        match legacy_point(v.deep_view(), i as int, sensor_pairs.deep_view(), setpoint_pairs.deep_view(), actuator_pairs.deep_view()) {
            Ok(x) => r matches Ok(y) && y.deep_view() == x,
            Err(e) => r matches Err(y) && y@ == e,
        },
{
    let ghost sp = sensor_pairs.deep_view();
    let ghost stp = setpoint_pairs.deep_view();
    let ghost ap = actuator_pairs.deep_view();
    let m = match value_object(v) {
        Some(m) => m,
        None => {
            let mut msg = indexed_text("data", i);
            msg.append(" deve ser um objeto");
            return Err(AppError::InvalidArgument(msg));
        },
    };
    let time = match member(m, "time") {
        Some(t) => match value_f64(t) {
            Some(b) => b,
            None => {
                let mut msg = indexed_text("data", i);
                msg.append(".time");
                msg.append(" deve ser um número");
                return Err(AppError::InvalidArgument(msg));
            },
        },
        None => {
            let mut msg = indexed_text("data", i);
            msg.append(".time");
            msg.append(" deve ser um número");
            return Err(AppError::InvalidArgument(msg));
        },
    };
    let sm = match member(m, "sensors") {
        Some(x) => match value_object(x) {
            Some(sm) => sm,
            None => {
                let mut msg = indexed_text("data", i);
                msg.append(".sensors");
                msg.append(" deve ser um objeto");
                return Err(AppError::InvalidArgument(msg));
            },
        },
        None => {
            let mut msg = indexed_text("data", i);
            msg.append(".sensors ausente");
            return Err(AppError::InvalidArgument(msg));
        },
    };
    let pm = match member(m, "setpoints") {
        Some(x) => match value_object(x) {
            Some(pm) => pm,
            None => {
                let mut msg = indexed_text("data", i);
                msg.append(".setpoints");
                msg.append(" deve ser um objeto");
                return Err(AppError::InvalidArgument(msg));
            },
        },
        None => {
            let mut msg = indexed_text("data", i);
            msg.append(".setpoints ausente");
            return Err(AppError::InvalidArgument(msg));
        },
    };
    let am = match member(m, "actuators") {
        Some(x) => match value_object(x) {
            Some(am) => am,
            None => {
                let mut msg = indexed_text("data", i);
                msg.append(".actuators");
                msg.append(" deve ser um objeto");
                return Err(AppError::InvalidArgument(msg));
            },
        },
        None => {
            let mut msg = indexed_text("data", i);
            msg.append(".actuators ausente");
            return Err(AppError::InvalidArgument(msg));
        },
    };
    let ghost jsm = json_members(sm);
    let ghost jpm = json_members(pm);
    let ghost jam = json_members(am);
    let mut point: Vec<Keyed<u64>> = Vec::new();
    let ghost mut ins: Seq<(Seq<char>, u64)> = Seq::empty();
    proof { lemma_last_wins_push(ins, "time"@, time); }
    assert(point.deep_view() =~= Seq::<(Seq<char>, u64)>::empty());
    assert(last_wins(ins) =~= Seq::<(Seq<char>, u64)>::empty());
    upsert(&mut point, String::from_str("time"), time);
    proof { ins = ins.push(("time"@, time)); }
    assert(ins =~= seq![("time"@, time)]);
    let ghost base0 = ins;
    let mut j: usize = 0;
    assert(jsm.take(0) =~= Seq::<(Seq<char>, JsonView)>::empty());
    while j < sm.len()
        invariant
            j <= sm.len(),
            jsm == json_members(sm),
            sp == sensor_pairs.deep_view(),
            point.deep_view() == last_wins(ins),
            distinct_keys(point.deep_view()),
            ins == base0 + sensor_values(jsm.take(j as int), sp),
        decreases sm.len() - j,
    {
        assert(jsm.take(j + 1).drop_last() =~= jsm.take(j as int));
        assert(jsm.take(j + 1).last() == jsm[j as int]);
        assert(jsm[j as int] == (sm@[j as int].key@, sm@[j as int].value.deep_view()));
        match find_last_key(sensor_pairs, &sm[j].key) {
            Some(idx) => {
                assert(sp[idx as int].1 == sensor_pairs@[idx as int].value);
                let k = sensor_pairs[idx].value;
                let key = series_key(k, "_pv");
                let value = number_or_zero(&sm[j].value);
                proof { lemma_last_wins_push(ins, key@, value); }
                upsert(&mut point, key, value);
                proof { ins = ins.push((pv_key(k as int), value)); }
            },
            None => {},
        }
        assert(ins =~= base0 + sensor_values(jsm.take(j + 1), sp));
        j += 1;
    }
    assert(jsm.take(sm.len() as int) =~= jsm);
    let ghost base1 = ins;
    let mut j: usize = 0;
    assert(jpm.take(0) =~= Seq::<(Seq<char>, JsonView)>::empty());
    assert(ins =~= base1 + setpoint_values(jpm.take(0), stp, sp));
    while j < pm.len()
        invariant
            j <= pm.len(),
            jpm == json_members(pm),
            sp == sensor_pairs.deep_view(),
            stp == setpoint_pairs.deep_view(),
            point.deep_view() == last_wins(ins),
            distinct_keys(point.deep_view()),
            ins == base1 + setpoint_values(jpm.take(j as int), stp, sp),
        decreases pm.len() - j,
    {
        assert(jpm.take(j + 1).drop_last() =~= jpm.take(j as int));
        assert(jpm.take(j + 1).last() == jpm[j as int]);
        assert(jpm[j as int] == (pm@[j as int].key@, pm@[j as int].value.deep_view()));
        match find_last_key(setpoint_pairs, &pm[j].key) {
            Some(sidx) => {
                assert(stp[sidx as int].1 == setpoint_pairs@[sidx as int].value@);
                match find_last_key(sensor_pairs, &setpoint_pairs[sidx].value) {
                    Some(idx) => {
                        assert(sp[idx as int].1 == sensor_pairs@[idx as int].value);
                        let k = sensor_pairs[idx].value;
                        let key = series_key(k, "_sp");
                        let value = number_or_zero(&pm[j].value);
                        proof { lemma_last_wins_push(ins, key@, value); }
                        upsert(&mut point, key, value);
                        proof { ins = ins.push((sp_key(k as int), value)); }
                    },
                    None => {},
                }
            },
            None => {},
        }
        assert(ins =~= base1 + setpoint_values(jpm.take(j + 1), stp, sp));
        j += 1;
    }
    assert(jpm.take(pm.len() as int) =~= jpm);
    let ghost base2 = ins;
    let mut j: usize = 0;
    assert(jam.take(0) =~= Seq::<(Seq<char>, JsonView)>::empty());
    assert(ins =~= base2 + actuator_values(jam.take(0), ap));
    while j < am.len()
        invariant
            j <= am.len(),
            jam == json_members(am),
            ap == actuator_pairs.deep_view(),
            point.deep_view() == last_wins(ins),
            distinct_keys(point.deep_view()),
            ins == base2 + actuator_values(jam.take(j as int), ap),
        decreases am.len() - j,
    {
        assert(jam.take(j + 1).drop_last() =~= jam.take(j as int));
        assert(jam.take(j + 1).last() == jam[j as int]);
        assert(jam[j as int] == (am@[j as int].key@, am@[j as int].value.deep_view()));
        match find_last_key(actuator_pairs, &am[j].key) {
            Some(idx) => {
                assert(ap[idx as int].1 == actuator_pairs@[idx as int].value);
                let k = actuator_pairs[idx].value;
                let key = series_key(k, "_pv");
                let value = number_or_zero(&am[j].value);
                proof { lemma_last_wins_push(ins, key@, value); }
                upsert(&mut point, key, value);
                proof { ins = ins.push((pv_key(k as int), value)); }
            },
            None => {},
        }
        assert(ins =~= base2 + actuator_values(jam.take(j + 1), ap));
        j += 1;
    }
    assert(jam.take(am.len() as int) =~= jam);
    assert(ins =~= seq![("time"@, time)] + sensor_values(jsm, sp) + setpoint_values(jpm, stp, sp) + actuator_values(jam, ap));
    Ok(point)
}

/// The items of the member `key`, which must be present and an array.
pub fn required_items<'a>(m: &'a Vec<JsonMember>, key: &str) -> (r: AppResult<&'a Vec<JsonValue>>)
    ensures
        match required_array(json_members(m), key@) {
            Ok(items) => r matches Ok(x) && x.deep_view() == items,
            Err(e) => r matches Err(x) && x@ == e,
        },
{
    match member(m, key) {
        Some(v) => match value_array(v) {
            Some(items) => Ok(items),
            None => Err(AppError::InvalidArgument(concat2(key, " deve ser um array"))),
        },
        None => Err(AppError::InvalidArgument(concat3("Campo \"", key, "\" ausente"))),
    }
}

/// The pairs of export ids and positions of parsed variables.
fn variable_pairs(parsed: &Vec<ExportedVariable>, offset: usize) -> (r: Vec<Keyed<usize>>)
    requires
        offset + parsed.len() <= usize::MAX,
    ensures
        r.deep_view() == export_pairs(parsed.deep_view(), offset as int),
{
    let mut out: Vec<Keyed<usize>> = Vec::new();
    let mut i: usize = 0;
    while i < parsed.len()
        invariant
            i <= parsed.len(),
            offset + parsed.len() <= usize::MAX,
            out.len() == i,
            forall|k: int| 0 <= k < i ==> (#[trigger] out.deep_view()[k]) == (parsed.deep_view()[k].0, (offset + k) as usize),
        decreases parsed.len() - i,
    {
        let ghost before = out.deep_view();
        out.push(Keyed { key: parsed[i].export_id.clone(), value: offset + i });
        assert(out.deep_view() =~= before.push((parsed.deep_view()[i as int].0, (offset + i) as usize)));
        i += 1;
    }
    assert(out.deep_view() =~= export_pairs(parsed.deep_view(), offset as int));
    out
}

/// Whether the sensors and the actuators of an export can be numbered in a `usize`.
pub open spec fn counts_fit(m: Seq<(Seq<char>, JsonView)>) -> bool {
    match (required_array(m, "sensors"@), required_array(m, "actuators"@)) {
        (Ok(s), Ok(a)) => s.len() + a.len() < usize::MAX,
        _ => true,
    }
}

/// What an export of recorded data gives.
#[verifier::rlimit(60)]
#[verifier::loop_isolation(false)]
pub fn open_legacy_plant_file(root: &Vec<JsonMember>, file_name: &str) -> (r: AppResult<OpenedPlantFile>)
    requires
        counts_fit(json_members(root)),
    ensures
        match legacy_file(json_members(root), file_name@) {
            Ok(f) => r matches Ok(x) && opened_as(x, f) && !x.from_registry,
            Err(e) => r matches Err(x) && x@ == e,
        },
{
    let ghost m = json_members(root);
    let meta: &Vec<JsonMember> = match member(root, "meta") {
        Some(x) => match value_object(x) {
            Some(mm) => mm,
            None => return Err(AppError::InvalidArgument(concat2("meta", " deve ser um objeto"))),
        },
        None => root,
    };
    let sensors = required_items(root, "sensors")?;
    let actuators = required_items(root, "actuators")?;
    let setpoints = required_items(root, "setpoints")?;
    let data = required_items(root, "data")?;
    if data.len() == 0 {
        return Err(invalid_argument("Campo \"data\" está vazio"));
    }
    // sensors
    let ghost srs = sensor_results(sensors.deep_view());
    let mut ss: Vec<ExportedVariable> = Vec::new();
    let mut i: usize = 0;
    assert(srs.take(0) =~= Seq::<Result<(Seq<char>, VariableView), ErrorView>>::empty());
    assert(ss.deep_view() =~= Seq::<(Seq<char>, VariableView)>::empty());
    while i < sensors.len()
        invariant
            i <= sensors.len(),
            srs == sensor_results(sensors.deep_view()),
            ss.len() == i,
            collect_results(srs.take(i as int)) == Ok::<Seq<(Seq<char>, VariableView)>, ErrorView>(ss.deep_view()),
        decreases sensors.len() - i,
    {
        proof { lemma_collect_step(srs, i as int); }
        match read_legacy_sensor(&sensors[i], i) {
            Ok(x) => {
                let ghost before = ss.deep_view();
                ss.push(x);
                assert(ss.deep_view() =~= before.push(x.deep_view()));
            },
            Err(e) => {
                proof { lemma_collect_error_persists(srs, i as int + 1); }
                return Err(e);
            },
        }
        i += 1;
    }
    assert(srs.take(sensors.len() as int) =~= srs);
    let sensor_pairs = variable_pairs(&ss, 0);
    // actuators
    let offset = ss.len();
    let ghost sp = sensor_pairs.deep_view();
    let ghost ars = actuator_results(actuators.deep_view(), offset as int, sp);
    let mut aa: Vec<ExportedVariable> = Vec::new();
    let mut i: usize = 0;
    assert(ars.take(0) =~= Seq::<Result<(Seq<char>, VariableView), ErrorView>>::empty());
    assert(aa.deep_view() =~= Seq::<(Seq<char>, VariableView)>::empty());
    while i < actuators.len()
        invariant
            i <= actuators.len(),
            offset + actuators.len() < usize::MAX,
            sp == sensor_pairs.deep_view(),
            ars == actuator_results(actuators.deep_view(), offset as int, sp),
            aa.len() == i,
            collect_results(ars.take(i as int)) == Ok::<Seq<(Seq<char>, VariableView)>, ErrorView>(aa.deep_view()),
        decreases actuators.len() - i,
    {
        proof { lemma_collect_step(ars, i as int); }
        match read_legacy_actuator(&actuators[i], i, offset, &sensor_pairs) {
            Ok(x) => {
                let ghost before = aa.deep_view();
                aa.push(x);
                assert(aa.deep_view() =~= before.push(x.deep_view()));
            },
            Err(e) => {
                proof { lemma_collect_error_persists(ars, i as int + 1); }
                return Err(e);
            },
        }
        i += 1;
    }
    assert(ars.take(actuators.len() as int) =~= ars);
    let actuator_pairs = variable_pairs(&aa, offset);
    // setpoints
    let ghost prs = setpoint_results(setpoints.deep_view());
    let mut setpoint_pairs: Vec<Keyed<String>> = Vec::new();
    let mut i: usize = 0;
    assert(prs.take(0) =~= Seq::<Result<(Seq<char>, Seq<char>), ErrorView>>::empty());
    assert(setpoint_pairs.deep_view() =~= Seq::<(Seq<char>, Seq<char>)>::empty());
    while i < setpoints.len()
        invariant
            i <= setpoints.len(),
            prs == setpoint_results(setpoints.deep_view()),
            collect_results(prs.take(i as int)) == Ok::<Seq<(Seq<char>, Seq<char>)>, ErrorView>(setpoint_pairs.deep_view()),
        decreases setpoints.len() - i,
    {
        proof { lemma_collect_step(prs, i as int); }
        match read_legacy_setpoint(&setpoints[i], i) {
            Ok(x) => {
                let ghost before = setpoint_pairs.deep_view();
                setpoint_pairs.push(x);
                assert(setpoint_pairs.deep_view() =~= before.push(x.deep_view()));
            },
            Err(e) => {
                proof { lemma_collect_error_persists(prs, i as int + 1); }
                return Err(e);
            },
        }
        i += 1;
    }
    assert(prs.take(setpoints.len() as int) =~= prs);
    // data
    let ghost stp = setpoint_pairs.deep_view();
    let ghost ap = actuator_pairs.deep_view();
    let ghost drs = point_results(data.deep_view(), sp, stp, ap);
    let mut points: Vec<Vec<Keyed<u64>>> = Vec::new();
    let mut i: usize = 0;
    assert(drs.take(0) =~= Seq::<Result<Seq<(Seq<char>, u64)>, ErrorView>>::empty());
    assert(points.deep_view() =~= Seq::<Seq<(Seq<char>, u64)>>::empty());
    while i < data.len()
        invariant
            i <= data.len(),
            sp == sensor_pairs.deep_view(),
            stp == setpoint_pairs.deep_view(),
            ap == actuator_pairs.deep_view(),
            drs == point_results(data.deep_view(), sp, stp, ap),
            collect_results(drs.take(i as int)) == Ok::<Seq<Seq<(Seq<char>, u64)>>, ErrorView>(points.deep_view()),
        decreases data.len() - i,
    {
        proof { lemma_collect_step(drs, i as int); }
        match read_legacy_point(&data[i], i, &sensor_pairs, &setpoint_pairs, &actuator_pairs) {
            Ok(x) => {
                let ghost before = points.deep_view();
                points.push(x);
                assert(points.deep_view() =~= before.push(x.deep_view()));
            },
            Err(e) => {
                proof { lemma_collect_error_persists(drs, i as int + 1); }
                return Err(e);
            },
        }
        i += 1;
    }
    assert(drs.take(data.len() as int) =~= drs);
    let name = match opt_text(member(meta, "name")) {
        Some(n) => if is_blank(n.as_str()) { String::from_str(file_name) } else { n.clone() },
        None => String::from_str(file_name),
    };
    let sample_time_ms = match member(meta, "sampleTimeMs") {
        Some(x) => value_u64(x),
        None => None,
    };
    let mut variables: Vec<PlantVariable> = Vec::new();
    let mut i: usize = 0;
    while i < ss.len()
        invariant
            i <= ss.len(),
            variables.deep_view() == variables_of(ss.deep_view().take(i as int)),
        decreases ss.len() - i,
    {
        assert(ss.deep_view()[i as int].1 == ss@[i as int].variable.deep_view());
        let ghost before = variables.deep_view();
        variables.push(ss[i].variable.clone());
        assert(variables.deep_view() =~= before.push(ss.deep_view()[i as int].1));
        proof { lemma_variables_of_step(ss.deep_view(), i as int); }
        i += 1;
    }
    let ghost head = variables.deep_view();
    assert(ss.deep_view().take(ss.len() as int) =~= ss.deep_view());
    let mut i: usize = 0;
    while i < aa.len()
        invariant
            i <= aa.len(),
            variables.deep_view() == head + variables_of(aa.deep_view().take(i as int)),
        decreases aa.len() - i,
    {
        assert(aa.deep_view()[i as int].1 == aa@[i as int].variable.deep_view());
        let ghost before = variables.deep_view();
        variables.push(aa[i].variable.clone());
        assert(variables.deep_view() =~= before.push(aa.deep_view()[i as int].1));
        proof { lemma_variables_of_step(aa.deep_view(), i as int); }
        assert(variables.deep_view() =~= head + variables_of(aa.deep_view().take(i + 1)));
        i += 1;
    }
    assert(aa.deep_view().take(aa.len() as int) =~= aa.deep_view());
    let id = fresh_imported_id();
    let series_catalog = build_imported_series_catalog(id.as_str(), &variables);
    let controllers: Vec<ImportedWorkspaceControllerResponse> = Vec::new();
    assert(controllers.deep_view() =~= Seq::<ImportedControllerView>::empty());
    Ok(OpenedPlantFile {
        from_registry: false,
        id,
        name,
        sample_time_ms,
        variables,
        driver: None,
        controllers,
        data: points,
        series_catalog,
    })
}

} // verus!
