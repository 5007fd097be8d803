//! Building plants from requests, and the operations on the plants of a store.
use vstd::prelude::*;
use crate::controller_params::{fill_missing_controller_params, filled_params};
use crate::error::{AppResult, ErrorView, concat2};
use crate::first::{first_some, lemma_first_some_at, lemma_first_some_none, lemma_first_some_none_all};
use crate::ids::random_uuid;
use crate::ids::random_uuid_simple;
use crate::models::{
    ControllerRequestView, ControllerRuntimeStatus, ControllerView, CreatePlantControllerRequest,
    CreatePlantDriverRequest, CreatePlantRequest, ParamEntry, CreatePlantVariableRequest, DriverView, Plant,
    PlantController, PlantDriver, PlantStats, PlantVariable, PlantView, PluginRegistry, PluginType,
    PluginView, UpdatePlantRequest, VariableView,
};
use crate::float_bits::{eq_bits, f64_eq};
use crate::plant_store::{PlantStore, PlantStoreView, plant_not_found, spec_plant_insert, spec_plant_remove, spec_plant_replace};
use crate::plant_validation::{
    controller_error, controller_errors, payload_error, resolve_plugin, spec_resolve_plugin, validate_payload, var_label,
    variable_types,
};
use crate::keyed::has_key;
use crate::plugin_store::{PluginStore, PluginStoreView};
use crate::text::{blank, format_decimal, is_blank, trim, trimmed};

verus! {

broadcast use vstd::std_specs::vec::group_vec_axioms;

/// The variable at position `i` of a plant built from a request: its id is `var_<i>`.
pub open spec fn built_variable(i: int, v: CreatePlantVariableRequest) -> VariableView {
    VariableView {
        id: var_label(i),
        name: v.name@,
        var_type: v.var_type,
        unit: v.unit@,
        setpoint: v.setpoint,
        pv_min: v.pv_min,
        pv_max: v.pv_max,
        linked_sensor_ids: v.linked_sensor_ids.deep_view(),
    }
}

/// The variables of a plant built from the variables of a request.
pub open spec fn built_variables(vs: Seq<CreatePlantVariableRequest>) -> Seq<VariableView> {
    Seq::new(vs.len(), |i: int| built_variable(i, vs[i]))
}

/// The variables of a plant, numbered by position.
pub fn build_variables(variables: &Vec<CreatePlantVariableRequest>) -> (r: Vec<PlantVariable>)
    ensures
        r.deep_view() == built_variables(variables@),
{
    let mut out: Vec<PlantVariable> = Vec::new();
    let mut i: usize = 0;
    while i < variables.len()
        invariant
            i <= variables.len(),
            out.len() == i,
            forall|k: int| 0 <= k < i ==> (#[trigger] out.deep_view()[k]) == built_variable(k, variables@[k]),
        decreases variables.len() - i,
    {
        let v = &variables[i];
        let linked = match &v.linked_sensor_ids {
            Some(ids) => {
                let c = ids.clone();
                assert(c.deep_view() =~= ids.deep_view());
                Some(c)
            },
            None => None,
        };
        let id = concat2("var_", format_decimal(i).as_str());
        let ghost before = out.deep_view();
        out.push(PlantVariable {
            id,
            name: v.name.clone(),
            var_type: v.var_type,
            unit: v.unit.clone(),
            setpoint: v.setpoint,
            pv_min: v.pv_min,
            pv_max: v.pv_max,
            linked_sensor_ids: linked,
        });
        assert(out.deep_view() =~= before.push(built_variable(i as int, variables@[i as int])));
        i += 1;
    }
    assert(out.deep_view() =~= built_variables(variables@));
    out
}

/// The driver of a plant: the plugin's identity and file, the request's settings.
pub open spec fn built_driver(config: Seq<(Seq<char>, crate::models::SchemaValue)>, p: PluginView) -> DriverView {
    DriverView {
        plugin_id: p.id,
        plugin_name: p.name,
        runtime: p.runtime,
        source_file: p.source_file,
        source_code: None,
        config,
    }
}

/// The driver of a plant, from its request and the resolved plugin.
pub fn build_driver(request: &CreatePlantDriverRequest, plugin: &PluginRegistry) -> (r: PlantDriver)
    ensures
        r.deep_view() == built_driver(request.config.deep_view(), plugin@),
{
    let config = request.config.clone();
    assert(config.deep_view() =~= request.config.deep_view());
    PlantDriver {
        plugin_id: plugin.id.clone(),
        plugin_name: plugin.name.clone(),
        runtime: plugin.runtime,
        source_file: plugin.source_file.clone(),
        source_code: None,
        config,
    }
}

/// Whether `id` is an acceptable id for a controller built from a request that
/// asked for `requested`: the requested id when it is not blank, else a fresh
/// `ctrl_` followed by 32 characters.
pub open spec fn controller_id_fits(requested: Option<Seq<char>>, id: Seq<char>) -> bool {
    match requested {
        Some(s) if !blank(s) => id == s,
        _ => id.len() == 37 && id.take(5) == "ctrl_"@,
    }
}

/// The controller built from request `c` with plugin `p` under `id`.
pub open spec fn built_controller(c: ControllerRequestView, p: PluginView, id: Seq<char>) -> ControllerView {
    ControllerView {
        id,
        plugin_id: p.id,
        plugin_name: p.name,
        name: trimmed(c.name),
        controller_type: trimmed(c.controller_type),
        active: c.active,
        input_variable_ids: c.input_variable_ids,
        output_variable_ids: c.output_variable_ids,
        params: filled_params(c.params, p.schema),
        runtime_status: ControllerRuntimeStatus::Synced,
    }
}

/// A controller of a plant, from its request; its plugin must be a stored controller.
pub fn build_controller(request: &CreatePlantControllerRequest, plugins: &PluginStore) -> (r: AppResult<PlantController>)
    requires
        plugins.wf(),
    ensures
        match spec_resolve_plugin(plugins@, request.plugin_id@, PluginType::Controller) {
            Err(e) => r matches Err(x) && x@ == e,
            Ok(p) => r matches Ok(c) && c.deep_view() == built_controller(request.deep_view(), p, c.id@)
                && controller_id_fits(request.id.deep_view(), c.id@),
        },
{
    let plugin = resolve_plugin(plugins, request.plugin_id.as_str(), PluginType::Controller)?;
    let mut params = request.params.clone();
    assert(params.deep_view() =~= request.params.deep_view());
    fill_missing_controller_params(&mut params, &plugin);
    let id = match &request.id {
        Some(value) if !is_blank(value.as_str()) => value.clone(),
        _ => {
            proof { reveal_strlit("ctrl_"); }
            let fresh = random_uuid_simple();
            let id = concat2("ctrl_", fresh.as_str());
            assert(id@.take(5) =~= "ctrl_"@);
            id
        },
    };
    let inputs = request.input_variable_ids.clone();
    let outputs = request.output_variable_ids.clone();
    assert(inputs.deep_view() =~= request.input_variable_ids.deep_view());
    assert(outputs.deep_view() =~= request.output_variable_ids.deep_view());
    Ok(PlantController {
        id,
        plugin_id: plugin.id,
        plugin_name: plugin.name,
        name: trim(request.name.as_str()),
        controller_type: trim(request.controller_type.as_str()),
        active: request.active,
        input_variable_ids: inputs,
        output_variable_ids: outputs,
        params,
        runtime_status: ControllerRuntimeStatus::Synced,
    })
}

/// The error of resolving the plugin of each controller request, in order.
pub open spec fn controller_plugin_errors(cs: Seq<ControllerRequestView>, plugins: PluginStoreView) -> Seq<Option<ErrorView>> {
    Seq::new(cs.len(), |i: int| match spec_resolve_plugin(plugins, cs[i].plugin_id, PluginType::Controller) {
        Err(e) => Some(e),
        Ok(_) => None,
    })
}

/// Whether `c` is the controller built from request `req` with the stored plugins.
pub open spec fn controller_built(req: ControllerRequestView, plugins: PluginStoreView, c: ControllerView) -> bool {
    &&& spec_resolve_plugin(plugins, req.plugin_id, PluginType::Controller) is Ok
    &&& c == built_controller(req, spec_resolve_plugin(plugins, req.plugin_id, PluginType::Controller)->Ok_0, c.id)
    &&& controller_id_fits(req.id, c.id)
}

/// Whether `out` are the controllers built from `cs`, one for one.
pub open spec fn controllers_built(cs: Seq<ControllerRequestView>, plugins: PluginStoreView, out: Seq<ControllerView>) -> bool {
    &&& out.len() == cs.len()
    &&& forall|i: int| 0 <= i < cs.len() ==> controller_built(cs[i], plugins, #[trigger] out[i])
}

/// The controllers of a plant, from their requests; stops at the first whose
/// plugin is not a stored controller.
pub fn build_controllers(requests: &Vec<CreatePlantControllerRequest>, plugins: &PluginStore) -> (r: AppResult<Vec<PlantController>>)
    requires
        plugins.wf(),
    ensures
        match first_some(controller_plugin_errors(requests.deep_view(), plugins@)) {
            Some(e) => r matches Err(x) && x@ == e,
            None => r matches Ok(v) && controllers_built(requests.deep_view(), plugins@, v.deep_view()),
        },
{
    let ghost errs = controller_plugin_errors(requests.deep_view(), plugins@);
    let mut out: Vec<PlantController> = Vec::new();
    let mut i: usize = 0;
    while i < requests.len()
        invariant
            i <= requests.len(),
            plugins.wf(),
            errs == controller_plugin_errors(requests.deep_view(), plugins@),
            out.len() == i,
            forall|j: int| 0 <= j < i ==> (#[trigger] errs[j]) is None,
            forall|j: int| 0 <= j < i ==> controller_built(requests.deep_view()[j], plugins@, #[trigger] out.deep_view()[j]),
        decreases requests.len() - i,
    {
        assert(requests.deep_view()[i as int] == requests[i as int].deep_view());
        match build_controller(&requests[i], plugins) {
            Ok(c) => {
                let ghost before = out.deep_view();
                out.push(c);
                assert(out.deep_view() =~= before.push(c.deep_view()));
            },
            Err(e) => {
                proof { lemma_first_some_at(errs, i as int); }
                return Err(e);
            },
        }
        i += 1;
    }
    proof { lemma_first_some_none(errs); }
    Ok(out)
}

/// The error, if any, with which building a plant stops: its driver's plugin
/// first, then its controllers' plugins in order.
pub open spec fn plant_build_error(plugins: PluginStoreView, driver_plugin_id: Seq<char>, cs: Seq<ControllerRequestView>) -> Option<ErrorView> {
    match spec_resolve_plugin(plugins, driver_plugin_id, PluginType::Driver) {
        Err(e) => Some(e),
        Ok(_) => first_some(controller_plugin_errors(cs, plugins)),
    }
}

/// Whether `p` has the name, sample time, variables, driver and controllers
/// built from the parts of a request.
pub open spec fn plant_parts_built(
    p: PlantView,
    plugins: PluginStoreView,
    name: Seq<char>,
    sample_time_ms: u64,
    variables: Seq<CreatePlantVariableRequest>,
    driver: CreatePlantDriverRequest,
    cs: Seq<ControllerRequestView>,
) -> bool {
    &&& p.name == trimmed(name)
    &&& p.sample_time_ms == sample_time_ms
    &&& p.variables == built_variables(variables)
    &&& spec_resolve_plugin(plugins, driver.plugin_id@, PluginType::Driver) is Ok
    &&& p.driver == built_driver(driver.config.deep_view(), spec_resolve_plugin(plugins, driver.plugin_id@, PluginType::Driver)->Ok_0)
    &&& controllers_built(cs, plugins, p.controllers)
}

/// Whether `id` is a fresh plant id: `plant_` followed by a 36-character UUID.
pub open spec fn fresh_plant_id(id: Seq<char>) -> bool {
    id.len() == 42 && id.take(6) == "plant_"@
}

/// A new plant built from `request`, disconnected, its step `dt` (the bit
/// pattern of the sample time in seconds) and no uptime.
pub fn build_plant(request: CreatePlantRequest, plugins: &PluginStore, dt: u64) -> (r: AppResult<Plant>)
    requires
        plugins.wf(),
    ensures
        match plant_build_error(plugins@, request.driver.plugin_id@, request.controllers.deep_view()) {
            Some(e) => r matches Err(x) && x@ == e,
            None => r matches Ok(p) && plant_parts_built(p@, plugins@, request.name@, request.sample_time_ms,
                request.variables@, request.driver, request.controllers.deep_view())
                && fresh_plant_id(p.id@) && !p.connected && !p.paused
                && p.stats == (PlantStats { dt, uptime: 0 }),
        },
{
    proof { reveal_strlit("plant_"); }
    let fresh = random_uuid();
    let plant_id = concat2("plant_", fresh.as_str());
    assert(plant_id@.take(6) =~= "plant_"@);
    let driver_plugin = resolve_plugin(plugins, request.driver.plugin_id.as_str(), PluginType::Driver)?;
    let variables = build_variables(&request.variables);
    let controllers = build_controllers(&request.controllers, plugins)?;
    Ok(Plant {
        id: plant_id,
        name: trim(request.name.as_str()),
        sample_time_ms: request.sample_time_ms,
        variables,
        driver: build_driver(&request.driver, &driver_plugin),
        controllers,
        connected: false,
        paused: false,
        stats: PlantStats { dt, uptime: 0 },
    })
}

/// What a running plant keeps when its definition is replaced.
pub struct PlantRuntimeSnapshot {
    pub previous_name: String,
    pub previous_sample_time_ms: u64,
    pub connected: bool,
    pub paused: bool,
    pub stats: PlantStats,
}

/// The statistics of a plant whose definition is replaced: the step becomes
/// `next_dt` unless the plant is connected and runs with a step other than
/// `previous_dt`, the step of its former sample time.
pub open spec fn updated_stats(connected: bool, stats: PlantStats, previous_dt: u64, next_dt: u64) -> PlantStats {
    if !connected || f64_eq(stats.dt, previous_dt) {
        PlantStats { dt: next_dt, ..stats }
    } else {
        stats
    }
}

/// The plant that replaces the definition of the plant `request.id`, keeping its
/// connection, pause and statistics; `previous_dt` and `next_dt` are the bit
/// patterns of the former and the new sample time in seconds.
pub fn build_updated_plant(
    request: UpdatePlantRequest,
    plugins: &PluginStore,
    runtime: PlantRuntimeSnapshot,
    previous_dt: u64,
    next_dt: u64,
) -> (r: AppResult<Plant>)
    requires
        plugins.wf(),
    ensures
        match plant_build_error(plugins@, request.driver.plugin_id@, request.controllers.deep_view()) {
            Some(e) => r matches Err(x) && x@ == e,
            None => r matches Ok(p) && plant_parts_built(p@, plugins@, request.name@, request.sample_time_ms,
                request.variables@, request.driver, request.controllers.deep_view())
                && p.id@ == request.id@ && p.connected == runtime.connected && p.paused == runtime.paused
                && p.stats == updated_stats(runtime.connected, runtime.stats, previous_dt, next_dt),
        },
{
    let driver_plugin = resolve_plugin(plugins, request.driver.plugin_id.as_str(), PluginType::Driver)?;
    let variables = build_variables(&request.variables);
    let controllers = build_controllers(&request.controllers, plugins)?;
    let mut stats = runtime.stats;
    if !runtime.connected || eq_bits(stats.dt, previous_dt) {
        stats.dt = next_dt;
    }
    Ok(Plant {
        id: request.id.clone(),
        name: trim(request.name.as_str()),
        sample_time_ms: request.sample_time_ms,
        variables,
        driver: build_driver(&request.driver, &driver_plugin),
        controllers,
        connected: runtime.connected,
        paused: runtime.paused,
        stats,
    })
}

/// A payload that passes the checks of a plant request builds without error.
pub proof fn lemma_valid_payload_builds(
    store: PlantStoreView,
    plugins: PluginStoreView,
    current_id: Option<Seq<char>>,
    name: Seq<char>,
    sample_time_ms: u64,
    variables: Seq<CreatePlantVariableRequest>,
    driver_plugin_id: Seq<char>,
    cs: Seq<ControllerRequestView>,
)
    requires
        payload_error(store, plugins, current_id, name, sample_time_ms, variables, driver_plugin_id, cs) is None,
    ensures
        plant_build_error(plugins, driver_plugin_id, cs) is None,
{
    let types = variable_types(variables);
    let errs = controller_errors(cs, types, plugins);
    lemma_first_some_none_all(errs);
    let perrs = controller_plugin_errors(cs, plugins);
    assert forall|i: int| 0 <= i < perrs.len() implies (#[trigger] perrs[i]) is None by {
        assert(errs[i] is None);
        assert(controller_error(cs[i], types, plugins) is None);
    }
    lemma_first_some_none(perrs);
}

/// The view of the outcome of an operation that gives a plant.
pub open spec fn plant_result(r: AppResult<Plant>) -> Result<PlantView, ErrorView> {
    match r {
        Ok(p) => Ok(p@),
        Err(e) => Err(e@),
    }
}

/// Whether creating a plant from `request` in a store `old` can end with the store
/// `new` and the outcome `r`: a request that fails the checks is refused with its
/// error; otherwise the plant it describes, under a fresh id, is inserted as the
/// store allows.
pub open spec fn plant_create_outcome(
    old: PlantStoreView,
    plugins: PluginStoreView,
    request: CreatePlantRequest,
    dt: u64,
    new: PlantStoreView,
    r: Result<PlantView, ErrorView>,
) -> bool {
    match payload_error(old, plugins, None, request.name@, request.sample_time_ms,
        request.variables@, request.driver.plugin_id@, request.controllers.deep_view()) {
        Some(e) => r == Err::<PlantView, ErrorView>(e) && new == old,
        None => exists|p: PlantView| {
            &&& #[trigger] plant_parts_built(p, plugins, request.name@, request.sample_time_ms, request.variables@,
                request.driver, request.controllers.deep_view())
            &&& fresh_plant_id(p.id) && !p.connected && !p.paused && p.stats == (PlantStats { dt, uptime: 0 })
            &&& match spec_plant_insert(old, p) {
                Ok(next) => r == Ok::<PlantView, ErrorView>(p) && new == next,
                Err(e) => r == Err::<PlantView, ErrorView>(e) && new == old,
            }
        },
    }
}

/// The plant service: creating, changing and removing the plants of a store.
pub struct PlantService;

impl PlantService {
    /// Adds the schema defaults of `plugin` for every parameter that is missing;
    /// returns whether any was added.
    pub fn fill_missing_controller_params(params: &mut Vec<ParamEntry>, plugin: &PluginRegistry) -> (changed: bool)
        ensures
            final(params).deep_view() == filled_params(old(params).deep_view(), plugin@.schema),
            changed == (final(params).len() != old(params).len()),
    {
        fill_missing_controller_params(params, plugin)
    }

    /// Checks `request`, builds the plant it describes and stores it. `dt` is the bit
    /// pattern of the sample time in seconds, the plant's first step.
    pub fn create(store: &mut PlantStore, plugins: &PluginStore, request: CreatePlantRequest, dt: u64) -> (r: AppResult<Plant>)
        requires
            old(store).wf(),
            plugins.wf(),
        ensures
            final(store).wf(),
            plant_create_outcome(old(store)@, plugins@, request, dt, final(store)@, plant_result(r)),
    {
        validate_payload(None, request.name.as_str(), request.sample_time_ms, &request.variables,
            &request.driver, &request.controllers, store, plugins)?;
        proof {
            lemma_valid_payload_builds(store@, plugins@, None, request.name@, request.sample_time_ms,
                request.variables@, request.driver.plugin_id@, request.controllers.deep_view());
        }
        let ghost req = request;
        let plant = build_plant(request, plugins, dt)?;
        let snapshot = plant.clone();
        store.insert(plant)?;
        Ok(snapshot)
    }

    /// Checks `request` and puts the plant it describes in place of the stored plant
    /// `request.id`, keeping its connection, pause and statistics; `previous_dt` and
    /// `next_dt` are the bit patterns of the stored and the new sample time in seconds.
    pub fn update(
        store: &mut PlantStore,
        plugins: &PluginStore,
        request: UpdatePlantRequest,
        previous_dt: u64,
        next_dt: u64,
    ) -> (r: AppResult<Plant>)
        requires
            old(store).wf(),
            plugins.wf(),
        ensures
            final(store).wf(),
            match payload_error(old(store)@, plugins@, Some(request.id@), request.name@, request.sample_time_ms,
                request.variables@, request.driver.plugin_id@, request.controllers.deep_view()) {
                Some(e) => r matches Err(x) && x@ == e && final(store)@ == old(store)@,
                None => if !has_key(old(store)@.entries, request.id@) {
                    r matches Err(x) && x@ == plant_not_found(request.id@) && final(store)@ == old(store)@
                } else {
                    let existing = old(store)@.plants()[request.id@];
                    exists|p: PlantView| {
                        &&& #[trigger] plant_parts_built(p, plugins@, request.name@, request.sample_time_ms, request.variables@,
                            request.driver, request.controllers.deep_view())
                        &&& p.id == request.id@ && p.connected == existing.connected && p.paused == existing.paused
                        &&& p.stats == updated_stats(existing.connected, existing.stats, previous_dt, next_dt)
                        &&& match spec_plant_replace(old(store)@, request.id@, p) {
                            Ok(next) => (r matches Ok(x) && x@ == p) && final(store)@ == next,
                            Err(e) => (r matches Err(x) && x@ == e) && final(store)@ == old(store)@,
                        }
                    }
                },
            },
    {
        validate_payload(Some(request.id.as_str()), request.name.as_str(), request.sample_time_ms, &request.variables,
            &request.driver, &request.controllers, store, plugins)?;
        proof {
            lemma_valid_payload_builds(store@, plugins@, Some(request.id@), request.name@, request.sample_time_ms,
                request.variables@, request.driver.plugin_id@, request.controllers.deep_view());
        }
        let existing = store.get(request.id.as_str())?;
        let runtime = PlantRuntimeSnapshot {
            previous_name: existing.name.clone(),
            previous_sample_time_ms: existing.sample_time_ms,
            connected: existing.connected,
            paused: existing.paused,
            stats: existing.stats,
        };
        let id = request.id.clone();
        let plant = build_updated_plant(request, plugins, runtime, previous_dt, next_dt)?;
        let snapshot = plant.clone();
        store.replace(id.as_str(), plant)?;
        Ok(snapshot)
    }

    /// The plant stored under `id`.
    pub fn get(store: &PlantStore, id: &str) -> (r: AppResult<Plant>)
        requires
            store.wf(),
        ensures
            has_key(store@.entries, id@) ==> (r matches Ok(p) && p@ == store@.plants()[id@]),
            !has_key(store@.entries, id@) ==> (r matches Err(e) && e@ == plant_not_found(id@)),
    {
        store.get(id)
    }

    /// All stored plants, in the order they were stored.
    pub fn list(store: &PlantStore) -> (r: Vec<Plant>)
        ensures
            r.deep_view() == store@.listed(),
    {
        store.list()
    }

    /// Removes the plant stored under `id` from the store and returns it.
    pub fn remove(store: &mut PlantStore, id: &str) -> (r: AppResult<Plant>)
        requires
            old(store).wf(),
        ensures
            final(store).wf(),
            match spec_plant_remove(old(store)@, id@) {
                Ok((next, p)) => r matches Ok(x) && x@ == p && final(store)@ == next,
                Err(e) => r matches Err(x) && x@ == e && final(store)@ == old(store)@,
            },
    {
        store.remove(id)
    }
}

/// A plant as the interface shows it.
#[derive(Debug)]
pub struct PlantResponse {
    pub id: String,
    pub name: String,
    pub sample_time_ms: u64,
    pub connected: bool,
    pub paused: bool,
    pub variables: Vec<PlantVariable>,
    pub stats: PlantStats,
    pub driver: PlantDriver,
    pub controllers: Vec<PlantController>,
}

impl PlantResponse {
    /// The plant as the interface shows it: every part of it.
    pub fn from_plant(plant: &Plant) -> (r: PlantResponse)
        ensures
            r.id@ == plant.id@,
            r.name@ == plant.name@,
            r.sample_time_ms == plant.sample_time_ms,
            r.connected == plant.connected,
            r.paused == plant.paused,
            r.variables.deep_view() == plant@.variables,
            r.stats == plant.stats,
            r.driver.deep_view() == plant@.driver,
            r.controllers.deep_view() == plant@.controllers,
    {
        let variables = plant.variables.clone();
        let controllers = plant.controllers.clone();
        assert(variables.deep_view() =~= plant.variables.deep_view());
        assert(controllers.deep_view() =~= plant.controllers.deep_view());
        PlantResponse {
            id: plant.id.clone(),
            name: plant.name.clone(),
            sample_time_ms: plant.sample_time_ms,
            connected: plant.connected,
            paused: plant.paused,
            variables,
            stats: plant.stats,
            driver: plant.driver.clone(),
            controllers,
        }
    }
}

} // verus!
