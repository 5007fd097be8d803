//! The plant and plugin data model, with its mathematical views.
//!
//! Floating-point quantities of the application (setpoints, ranges, `dt`) are
//! carried here by their IEEE-754 bit patterns; the library never computes with them.
use vstd::prelude::*;

verus! {

broadcast use vstd::std_specs::vec::group_vec_axioms;

#[derive(Clone, Copy, PartialEq, Eq, Structural, Debug)]
pub enum PluginType {
    Driver,
    Controller,
}

#[derive(Clone, Copy, PartialEq, Eq, Structural, Debug)]
pub enum PluginRuntime {
    Python,
    RustNative,
}

#[derive(Clone, Copy, PartialEq, Eq, Structural, Debug)]
pub enum SchemaFieldType {
    Bool,
    Int,
    Float,
    String,
    List,
}

#[derive(Clone, Copy, PartialEq, Eq, Structural, Debug)]
pub enum PluginInstanceStatus {
    Idle,
    Running,
    Stopped,
    Error,
}

#[derive(Clone, Copy, PartialEq, Eq, Structural, Debug)]
pub enum VariableType {
    Sensor,
    Atuador,
}

#[derive(Clone, Copy, PartialEq, Eq, Structural, Debug)]
pub enum ControllerParamType {
    Number,
    Boolean,
    String,
}

#[derive(Clone, Copy, PartialEq, Eq, Structural, Debug)]
pub enum ControllerRuntimeStatus {
    Synced,
    PendingRestart,
}

impl PluginType {
    /// The label used in messages: "driver" or "controlador".
    pub open spec fn label_of(self) -> Seq<char> {
        match self {
            PluginType::Driver => "driver"@,
            PluginType::Controller => "controlador"@,
        }
    }

    pub fn as_label(&self) -> (r: String)
        ensures
            r@ == self.label_of(),
    {
        match self {
            PluginType::Driver => String::from_str("driver"),
            PluginType::Controller => String::from_str("controlador"),
        }
    }
}

/// A floating-point number as the application holds it: its bit pattern and its
/// decimal rendering (`f64::to_string`).
#[derive(Debug)]
pub struct FloatNumber {
    pub bits: u64,
    pub text: String,
}

impl DeepView for FloatNumber {
    type V = (u64, Seq<char>);

    open spec fn deep_view(&self) -> (u64, Seq<char>) {
        (self.bits, self.text@)
    }
}

impl Clone for FloatNumber {
    fn clone(&self) -> (r: Self)
        ensures
            r.deep_view() == self.deep_view(),
    {
        FloatNumber { bits: self.bits, text: self.text.clone() }
    }
}

/// A value of a plugin schema field or of a configuration entry.
#[derive(Debug)]
pub enum SchemaFieldValue {
    Bool(bool),
    Int(i64),
    Float(FloatNumber),
    String(String),
    List(Vec<SchemaFieldValue>),
}

/// The view of a [`SchemaFieldValue`].
pub enum SchemaValue {
    Bool(bool),
    Int(i64),
    Float(u64, Seq<char>),
    Text(Seq<char>),
    List(Seq<SchemaValue>),
}

pub open spec fn schema_value_view(v: SchemaFieldValue) -> SchemaValue
    decreases v,
{
    match v {
        SchemaFieldValue::Bool(b) => SchemaValue::Bool(b),
        SchemaFieldValue::Int(i) => SchemaValue::Int(i),
        SchemaFieldValue::Float(f) => SchemaValue::Float(f.bits, f.text@),
        SchemaFieldValue::String(s) => SchemaValue::Text(s@),
        SchemaFieldValue::List(items) => SchemaValue::List(
            Seq::new(
                items.len() as nat,
                |i: int|
                    if 0 <= i < items.len() {
                        schema_value_view(items[i])
                    } else {
                        SchemaValue::Bool(false)
                    },
            ),
        ),
    }
}

impl DeepView for SchemaFieldValue {
    type V = SchemaValue;

    open spec fn deep_view(&self) -> SchemaValue {
        schema_value_view(*self)
    }
}

pub fn clone_schema_value(v: &SchemaFieldValue) -> (r: SchemaFieldValue)
    ensures
        r.deep_view() == v.deep_view(),
    decreases v,
{
    match v {
        SchemaFieldValue::Bool(b) => SchemaFieldValue::Bool(*b),
        SchemaFieldValue::Int(i) => SchemaFieldValue::Int(*i),
        SchemaFieldValue::Float(f) => SchemaFieldValue::Float(f.clone()),
        SchemaFieldValue::String(s) => SchemaFieldValue::String(s.clone()),
        SchemaFieldValue::List(items) => {
            let mut out: Vec<SchemaFieldValue> = Vec::new();
            let mut i: usize = 0;
            while i < items.len()
                invariant
                    i <= items.len(),
                    *v == SchemaFieldValue::List(*items),
                    out.len() == i,
                    forall|k: int|
                        0 <= k < i ==> schema_value_view(#[trigger] out[k]) == schema_value_view(
                            items[k],
                        ),
                decreases items.len() - i,
            {
                proof {
                    let ghost its = *items;
                    assert(decreases_to!(its => its[i as int]));
                    assert(*v is List);
                    assert(v->List_0 == its);
                    assert(decreases_to!(*v => v->List_0));
                }
                let c = clone_schema_value(&items[i]);
                out.push(c);
                i += 1;
            }
            let r = SchemaFieldValue::List(out);
            proof {
                if let (SchemaValue::List(x), SchemaValue::List(y)) = (
                    schema_value_view(r),
                    schema_value_view(*v),
                ) {
                    assert(x =~= y);
                }
            }
            r
        }
    }
}

impl Clone for SchemaFieldValue {
    fn clone(&self) -> (r: Self)
        ensures
            r.deep_view() == self.deep_view(),
    {
        clone_schema_value(self)
    }
}

} // verus!

verus! {

/// One entry of a driver configuration: a key and its value.
#[derive(Debug)]
pub struct ConfigEntry {
    pub key: String,
    pub value: SchemaFieldValue,
}

impl DeepView for ConfigEntry {
    type V = (Seq<char>, SchemaValue);

    open spec fn deep_view(&self) -> (Seq<char>, SchemaValue) {
        (self.key@, self.value.deep_view())
    }
}

impl Clone for ConfigEntry {
    fn clone(&self) -> (r: Self)
        ensures
            r.deep_view() == self.deep_view(),
    {
        ConfigEntry { key: self.key.clone(), value: self.value.clone() }
    }
}

/// A controller parameter: its kind, its value and the label shown for it.
#[derive(Debug)]
pub struct ControllerParam {
    pub param_type: ControllerParamType,
    pub value: SchemaFieldValue,
    pub label: String,
}

pub struct ControllerParamView {
    pub param_type: ControllerParamType,
    pub value: SchemaValue,
    pub label: Seq<char>,
}

impl DeepView for ControllerParam {
    type V = ControllerParamView;

    open spec fn deep_view(&self) -> ControllerParamView {
        ControllerParamView {
            param_type: self.param_type,
            value: self.value.deep_view(),
            label: self.label@,
        }
    }
}

impl Clone for ControllerParam {
    fn clone(&self) -> (r: Self)
        ensures
            r.deep_view() == self.deep_view(),
    {
        ControllerParam {
            param_type: self.param_type,
            value: self.value.clone(),
            label: self.label.clone(),
        }
    }
}

/// One named parameter of a controller instance.
#[derive(Debug)]
pub struct ParamEntry {
    pub key: String,
    pub param: ControllerParam,
}

impl DeepView for ParamEntry {
    type V = (Seq<char>, ControllerParamView);

    open spec fn deep_view(&self) -> (Seq<char>, ControllerParamView) {
        (self.key@, self.param.deep_view())
    }
}

impl Clone for ParamEntry {
    fn clone(&self) -> (r: Self)
        ensures
            r.deep_view() == self.deep_view(),
    {
        ParamEntry { key: self.key.clone(), param: self.param.clone() }
    }
}

#[derive(Debug)]
pub struct PluginSchemaField {
    pub name: String,
    pub field_type: SchemaFieldType,
    pub default_value: Option<SchemaFieldValue>,
    pub description: Option<String>,
}

pub struct SchemaFieldView {
    pub name: Seq<char>,
    pub field_type: SchemaFieldType,
    pub default_value: Option<SchemaValue>,
    pub description: Option<Seq<char>>,
}

impl DeepView for PluginSchemaField {
    type V = SchemaFieldView;

    open spec fn deep_view(&self) -> SchemaFieldView {
        SchemaFieldView {
            name: self.name@,
            field_type: self.field_type,
            default_value: self.default_value.deep_view(),
            description: self.description.deep_view(),
        }
    }
}

impl Clone for PluginSchemaField {
    fn clone(&self) -> (r: Self)
        ensures
            r.deep_view() == self.deep_view(),
    {
        PluginSchemaField {
            name: self.name.clone(),
            field_type: self.field_type,
            default_value: self.default_value.clone(),
            description: self.description.clone(),
        }
    }
}

#[derive(Debug)]
pub struct PluginDependency {
    pub name: String,
    pub version: String,
}

impl DeepView for PluginDependency {
    type V = (Seq<char>, Seq<char>);

    open spec fn deep_view(&self) -> (Seq<char>, Seq<char>) {
        (self.name@, self.version@)
    }
}

impl Clone for PluginDependency {
    fn clone(&self) -> (r: Self)
        ensures
            r.deep_view() == self.deep_view(),
    {
        PluginDependency { name: self.name.clone(), version: self.version.clone() }
    }
}

/// A configured use of a plugin, with its state.
#[derive(Debug)]
pub struct PluginInstance {
    pub id: String,
    pub plugin_id: String,
    pub plugin_name: String,
    pub plugin_type: PluginType,
    pub status: PluginInstanceStatus,
    pub config: Vec<ConfigEntry>,
}

/// The registry of an installed plugin.
#[derive(Debug)]
pub struct PluginRegistry {
    pub id: String,
    pub name: String,
    pub plugin_type: PluginType,
    pub runtime: PluginRuntime,
    pub entry_class: String,
    pub schema: Vec<PluginSchemaField>,
    pub source_file: Option<String>,
    pub source_code: Option<String>,
    pub dependencies: Vec<PluginDependency>,
    pub description: Option<String>,
    pub version: Option<String>,
    pub author: Option<String>,
}

pub struct PluginView {
    pub id: Seq<char>,
    pub name: Seq<char>,
    pub plugin_type: PluginType,
    pub runtime: PluginRuntime,
    pub entry_class: Seq<char>,
    pub schema: Seq<SchemaFieldView>,
    pub source_file: Option<Seq<char>>,
    pub source_code: Option<Seq<char>>,
    pub dependencies: Seq<(Seq<char>, Seq<char>)>,
    pub description: Option<Seq<char>>,
    pub version: Option<Seq<char>>,
    pub author: Option<Seq<char>>,
}

impl DeepView for PluginRegistry {
    type V = PluginView;

    open spec fn deep_view(&self) -> PluginView {
        PluginView {
            id: self.id@,
            name: self.name@,
            plugin_type: self.plugin_type,
            runtime: self.runtime,
            entry_class: self.entry_class@,
            schema: self.schema.deep_view(),
            source_file: self.source_file.deep_view(),
            source_code: self.source_code.deep_view(),
            dependencies: self.dependencies.deep_view(),
            description: self.description.deep_view(),
            version: self.version.deep_view(),
            author: self.author.deep_view(),
        }
    }
}

impl View for PluginRegistry {
    type V = PluginView;

    open spec fn view(&self) -> PluginView {
        self.deep_view()
    }
}

impl Clone for PluginRegistry {
    fn clone(&self) -> (r: Self)
        ensures
            r@ == self@,
    {
        let schema = self.schema.clone();
        let dependencies = self.dependencies.clone();
        assert(schema.deep_view() =~= self.schema.deep_view());
        assert(dependencies.deep_view() =~= self.dependencies.deep_view());
        PluginRegistry {
            id: self.id.clone(),
            name: self.name.clone(),
            plugin_type: self.plugin_type,
            runtime: self.runtime,
            entry_class: self.entry_class.clone(),
            schema,
            source_file: self.source_file.clone(),
            source_code: self.source_code.clone(),
            dependencies,
            description: self.description.clone(),
            version: self.version.clone(),
            author: self.author.clone(),
        }
    }
}

} // verus!

verus! {

/// A signal of a plant. `setpoint`, `pv_min` and `pv_max` are bit patterns of
/// floating-point values.
#[derive(Debug)]
pub struct PlantVariable {
    pub id: String,
    pub name: String,
    pub var_type: VariableType,
    pub unit: String,
    pub setpoint: u64,
    pub pv_min: u64,
    pub pv_max: u64,
    pub linked_sensor_ids: Option<Vec<String>>,
}

pub struct VariableView {
    pub id: Seq<char>,
    pub name: Seq<char>,
    pub var_type: VariableType,
    pub unit: Seq<char>,
    pub setpoint: u64,
    pub pv_min: u64,
    pub pv_max: u64,
    pub linked_sensor_ids: Option<Seq<Seq<char>>>,
}

impl DeepView for PlantVariable {
    type V = VariableView;

    open spec fn deep_view(&self) -> VariableView {
        VariableView {
            id: self.id@,
            name: self.name@,
            var_type: self.var_type,
            unit: self.unit@,
            setpoint: self.setpoint,
            pv_min: self.pv_min,
            pv_max: self.pv_max,
            linked_sensor_ids: self.linked_sensor_ids.deep_view(),
        }
    }
}

impl Clone for PlantVariable {
    fn clone(&self) -> (r: Self)
        ensures
            r.deep_view() == self.deep_view(),
    {
        let linked = match &self.linked_sensor_ids {
            Some(ids) => {
                let c = ids.clone();
                assert(c.deep_view() =~= ids.deep_view());
                Some(c)
            },
            None => None,
        };
        PlantVariable {
            id: self.id.clone(),
            name: self.name.clone(),
            var_type: self.var_type,
            unit: self.unit.clone(),
            setpoint: self.setpoint,
            pv_min: self.pv_min,
            pv_max: self.pv_max,
            linked_sensor_ids: linked,
        }
    }
}

#[derive(Debug)]
pub struct PlantDriver {
    pub plugin_id: String,
    pub plugin_name: String,
    pub runtime: PluginRuntime,
    pub source_file: Option<String>,
    pub source_code: Option<String>,
    pub config: Vec<ConfigEntry>,
}

pub struct DriverView {
    pub plugin_id: Seq<char>,
    pub plugin_name: Seq<char>,
    pub runtime: PluginRuntime,
    pub source_file: Option<Seq<char>>,
    pub source_code: Option<Seq<char>>,
    pub config: Seq<(Seq<char>, SchemaValue)>,
}

impl DeepView for PlantDriver {
    type V = DriverView;

    open spec fn deep_view(&self) -> DriverView {
        DriverView {
            plugin_id: self.plugin_id@,
            plugin_name: self.plugin_name@,
            runtime: self.runtime,
            source_file: self.source_file.deep_view(),
            source_code: self.source_code.deep_view(),
            config: self.config.deep_view(),
        }
    }
}

impl Clone for PlantDriver {
    fn clone(&self) -> (r: Self)
        ensures
            r.deep_view() == self.deep_view(),
    {
        let config = self.config.clone();
        assert(config.deep_view() =~= self.config.deep_view());
        PlantDriver {
            plugin_id: self.plugin_id.clone(),
            plugin_name: self.plugin_name.clone(),
            runtime: self.runtime,
            source_file: self.source_file.clone(),
            source_code: self.source_code.clone(),
            config,
        }
    }
}

#[derive(Debug)]
pub struct PlantController {
    pub id: String,
    pub plugin_id: String,
    pub plugin_name: String,
    pub name: String,
    pub controller_type: String,
    pub active: bool,
    pub input_variable_ids: Vec<String>,
    pub output_variable_ids: Vec<String>,
    pub params: Vec<ParamEntry>,
    pub runtime_status: ControllerRuntimeStatus,
}

pub struct ControllerView {
    pub id: Seq<char>,
    pub plugin_id: Seq<char>,
    pub plugin_name: Seq<char>,
    pub name: Seq<char>,
    pub controller_type: Seq<char>,
    pub active: bool,
    pub input_variable_ids: Seq<Seq<char>>,
    pub output_variable_ids: Seq<Seq<char>>,
    pub params: Seq<(Seq<char>, ControllerParamView)>,
    pub runtime_status: ControllerRuntimeStatus,
}

impl DeepView for PlantController {
    type V = ControllerView;

    open spec fn deep_view(&self) -> ControllerView {
        ControllerView {
            id: self.id@,
            plugin_id: self.plugin_id@,
            plugin_name: self.plugin_name@,
            name: self.name@,
            controller_type: self.controller_type@,
            active: self.active,
            input_variable_ids: self.input_variable_ids.deep_view(),
            output_variable_ids: self.output_variable_ids.deep_view(),
            params: self.params.deep_view(),
            runtime_status: self.runtime_status,
        }
    }
}

impl Clone for PlantController {
    fn clone(&self) -> (r: Self)
        ensures
            r.deep_view() == self.deep_view(),
    {
        let inputs = self.input_variable_ids.clone();
        let outputs = self.output_variable_ids.clone();
        let params = self.params.clone();
        assert(inputs.deep_view() =~= self.input_variable_ids.deep_view());
        assert(outputs.deep_view() =~= self.output_variable_ids.deep_view());
        assert(params.deep_view() =~= self.params.deep_view());
        PlantController {
            id: self.id.clone(),
            plugin_id: self.plugin_id.clone(),
            plugin_name: self.plugin_name.clone(),
            name: self.name.clone(),
            controller_type: self.controller_type.clone(),
            active: self.active,
            input_variable_ids: inputs,
            output_variable_ids: outputs,
            params,
            runtime_status: self.runtime_status,
        }
    }
}

/// Live statistics of a plant: `dt` is the bit pattern of a number of seconds.
#[derive(Clone, Copy, PartialEq, Eq, Structural, Debug)]
pub struct PlantStats {
    pub dt: u64,
    pub uptime: u64,
}

#[derive(Debug)]
pub struct Plant {
    pub id: String,
    pub name: String,
    pub sample_time_ms: u64,
    pub variables: Vec<PlantVariable>,
    pub driver: PlantDriver,
    pub controllers: Vec<PlantController>,
    pub connected: bool,
    pub paused: bool,
    pub stats: PlantStats,
}

pub struct PlantView {
    pub id: Seq<char>,
    pub name: Seq<char>,
    pub sample_time_ms: u64,
    pub variables: Seq<VariableView>,
    pub driver: DriverView,
    pub controllers: Seq<ControllerView>,
    pub connected: bool,
    pub paused: bool,
    pub stats: PlantStats,
}

impl DeepView for Plant {
    type V = PlantView;

    open spec fn deep_view(&self) -> PlantView {
        PlantView {
            id: self.id@,
            name: self.name@,
            sample_time_ms: self.sample_time_ms,
            variables: self.variables.deep_view(),
            driver: self.driver.deep_view(),
            controllers: self.controllers.deep_view(),
            connected: self.connected,
            paused: self.paused,
            stats: self.stats,
        }
    }
}

impl View for Plant {
    type V = PlantView;

    open spec fn view(&self) -> PlantView {
        self.deep_view()
    }
}

impl Clone for Plant {
    fn clone(&self) -> (r: Self)
        ensures
            r@ == self@,
    {
        let variables = self.variables.clone();
        let controllers = self.controllers.clone();
        assert(variables.deep_view() =~= self.variables.deep_view());
        assert(controllers.deep_view() =~= self.controllers.deep_view());
        Plant {
            id: self.id.clone(),
            name: self.name.clone(),
            sample_time_ms: self.sample_time_ms,
            variables,
            driver: self.driver.clone(),
            controllers,
            connected: self.connected,
            paused: self.paused,
            stats: self.stats,
        }
    }
}

} // verus!

verus! {

/// A request to create a plugin.
#[derive(Debug)]
pub struct CreatePluginRequest {
    pub name: String,
    pub plugin_type: PluginType,
    pub runtime: PluginRuntime,
    pub entry_class: Option<String>,
    pub schema: Vec<PluginSchemaField>,
    pub source_file: Option<String>,
    pub source_code: Option<String>,
    pub dependencies: Vec<PluginDependency>,
    pub description: Option<String>,
    pub version: Option<String>,
    pub author: Option<String>,
}

/// A request to change an existing plugin.
#[derive(Debug)]
pub struct UpdatePluginRequest {
    pub id: String,
    pub name: String,
    pub plugin_type: PluginType,
    pub runtime: PluginRuntime,
    pub entry_class: Option<String>,
    pub schema: Vec<PluginSchemaField>,
    pub source_file: Option<String>,
    pub source_code: Option<String>,
    pub dependencies: Vec<PluginDependency>,
    pub description: Option<String>,
    pub version: Option<String>,
    pub author: Option<String>,
}

} // verus!

verus! {

/// A variable of a plant request; the numbers are bit patterns of floating-point values.
#[derive(Debug)]
pub struct CreatePlantVariableRequest {
    pub name: String,
    pub var_type: VariableType,
    pub unit: String,
    pub setpoint: u64,
    pub pv_min: u64,
    pub pv_max: u64,
    pub linked_sensor_ids: Option<Vec<String>>,
}

#[derive(Debug)]
pub struct CreatePlantDriverRequest {
    pub plugin_id: String,
    pub config: Vec<ConfigEntry>,
}

#[derive(Debug)]
pub struct CreatePlantControllerRequest {
    pub id: Option<String>,
    pub plugin_id: String,
    pub name: String,
    pub controller_type: String,
    pub active: bool,
    pub input_variable_ids: Vec<String>,
    pub output_variable_ids: Vec<String>,
    pub params: Vec<ParamEntry>,
}

pub struct ControllerRequestView {
    pub id: Option<Seq<char>>,
    pub plugin_id: Seq<char>,
    pub name: Seq<char>,
    pub controller_type: Seq<char>,
    pub active: bool,
    pub input_variable_ids: Seq<Seq<char>>,
    pub output_variable_ids: Seq<Seq<char>>,
    pub params: Seq<(Seq<char>, ControllerParamView)>,
}

impl DeepView for CreatePlantControllerRequest {
    type V = ControllerRequestView;

    open spec fn deep_view(&self) -> ControllerRequestView {
        ControllerRequestView {
            id: self.id.deep_view(),
            plugin_id: self.plugin_id@,
            name: self.name@,
            controller_type: self.controller_type@,
            active: self.active,
            input_variable_ids: self.input_variable_ids.deep_view(),
            output_variable_ids: self.output_variable_ids.deep_view(),
            params: self.params.deep_view(),
        }
    }
}

impl Clone for CreatePlantControllerRequest {
    fn clone(&self) -> (r: Self)
        ensures
            r.deep_view() == self.deep_view(),
    {
        let inputs = self.input_variable_ids.clone();
        let outputs = self.output_variable_ids.clone();
        let params = self.params.clone();
        assert(inputs.deep_view() =~= self.input_variable_ids.deep_view());
        assert(outputs.deep_view() =~= self.output_variable_ids.deep_view());
        assert(params.deep_view() =~= self.params.deep_view());
        CreatePlantControllerRequest {
            id: self.id.clone(),
            plugin_id: self.plugin_id.clone(),
            name: self.name.clone(),
            controller_type: self.controller_type.clone(),
            active: self.active,
            input_variable_ids: inputs,
            output_variable_ids: outputs,
            params,
        }
    }
}

#[derive(Debug)]
pub struct CreatePlantRequest {
    pub name: String,
    pub sample_time_ms: u64,
    pub variables: Vec<CreatePlantVariableRequest>,
    pub driver: CreatePlantDriverRequest,
    pub controllers: Vec<CreatePlantControllerRequest>,
}

#[derive(Debug)]
pub struct UpdatePlantRequest {
    pub id: String,
    pub name: String,
    pub sample_time_ms: u64,
    pub variables: Vec<CreatePlantVariableRequest>,
    pub driver: CreatePlantDriverRequest,
    pub controllers: Vec<CreatePlantControllerRequest>,
}

#[derive(Debug)]
pub struct SavePlantControllerParamRequest {
    pub key: String,
    pub param_type: ControllerParamType,
    pub value: SchemaFieldValue,
    pub label: String,
}

impl DeepView for SavePlantControllerParamRequest {
    type V = (Seq<char>, ControllerParamView);

    open spec fn deep_view(&self) -> (Seq<char>, ControllerParamView) {
        (self.key@, ControllerParamView { param_type: self.param_type, value: self.value.deep_view(), label: self.label@ })
    }
}

#[derive(Debug)]
pub struct SavePlantControllerConfigRequest {
    pub plant_id: String,
    pub controller_id: String,
    pub plugin_id: Option<String>,
    pub name: String,
    pub controller_type: String,
    pub active: bool,
    pub input_variable_ids: Vec<String>,
    pub output_variable_ids: Vec<String>,
    pub params: Vec<SavePlantControllerParamRequest>,
}

#[derive(Debug)]
pub struct RemovePlantControllerRequest {
    pub plant_id: String,
    pub controller_id: String,
}

/// A request to change the setpoint of a sensor; `setpoint` is a bit pattern.
#[derive(Debug)]
pub struct SavePlantSetpointRequest {
    pub plant_id: String,
    pub variable_id: String,
    pub setpoint: u64,
}

} // verus!
