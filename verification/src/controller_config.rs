//! Saving the configuration of one controller of a stored plant.
use vstd::prelude::*;
use crate::controller_params::{fill_missing_controller_params, filled_params};
use crate::error::{AppResult, ErrorView, invalid_argument};
use crate::first::{first_some, lemma_first_some_at, lemma_first_some_none};
use crate::keyed::{distinct_keys, has_key, index_of_key, lemma_index_of_key, lemma_push, lemma_update};
use crate::models::{
    ControllerParam, ControllerRequestView, ControllerRuntimeStatus, ControllerView, CreatePlantControllerRequest,
    CreatePlantVariableRequest, ParamEntry, Plant, PlantController, PlantVariable, PlantView, PluginRegistry,
    PluginType, PluginView, SavePlantControllerConfigRequest, SavePlantControllerParamRequest, VariableType,
    VariableView, ControllerParamView,
};
use crate::plant_service::PlantService;
use crate::plant_store::{PlantStore, PlantStoreView, plant_not_found, spec_plant_update};
use crate::plant_validation::{
    active_outputs, conflict_error, controller_error, resolve_plugin, spec_resolve_plugin,
    validate_active_controller_conflicts, validate_controller, variable_types,
};
use crate::plugin_store::{PluginStore, PluginStoreView};
use crate::text::{blank, is_blank, trim, trimmed};

verus! {

broadcast use vstd::std_specs::vec::group_vec_axioms;

/// The parameters of a request, one entry per key: a later entry for a key takes
/// the place of an earlier one, where the earlier one stood.
pub open spec fn collected_params(entries: Seq<(Seq<char>, ControllerParamView)>) -> Seq<(Seq<char>, ControllerParamView)>
    decreases entries.len(),
{
    if entries.len() == 0 {
        Seq::empty()
    } else {
        let prev = collected_params(entries.drop_last());
        let e = entries.last();
        if has_key(prev, e.0) {
            prev.update(index_of_key(prev, e.0), e)
        } else {
            prev.push(e)
        }
    }
}

/// The parameters of a request, one entry per key.
pub fn collect_params(params: &Vec<SavePlantControllerParamRequest>) -> (r: Vec<ParamEntry>)
    ensures
        r.deep_view() == collected_params(params.deep_view()),
        distinct_keys(r.deep_view()),
{
    let ghost entries = params.deep_view();
    let mut out: Vec<ParamEntry> = Vec::new();
    let mut i: usize = 0;
    assert(entries.take(0) =~= Seq::<(Seq<char>, ControllerParamView)>::empty());
    while i < params.len()
        invariant
            i <= params.len(),
            entries == params.deep_view(),
            out.deep_view() == collected_params(entries.take(i as int)),
            distinct_keys(out.deep_view()),
        decreases params.len() - i,
    {
        let p = &params[i];
        let entry = ParamEntry {
            key: p.key.clone(),
            param: ControllerParam { param_type: p.param_type, value: p.value.clone(), label: p.label.clone() },
        };
        assert(entry.deep_view() == entries[i as int]);
        assert(entries.take(i + 1).drop_last() =~= entries.take(i as int));
        let ghost prev = out.deep_view();
        let mut j: usize = 0;
        let mut found: Option<usize> = None;
        while j < out.len()
            invariant
                j <= out.len(),
                prev == out.deep_view(),
                found matches Some(k) ==> k < out.len() && prev[k as int].0 == p.key@,
                found is None ==> forall|k: int| 0 <= k < j ==> (#[trigger] prev[k]).0 != p.key@,
            decreases out.len() - j,
        {
            if found.is_none() && out[j].key == p.key {
                found = Some(j);
            }
            j += 1;
        }
        match found {
            Some(k) => {
                proof {
                    lemma_index_of_key(prev, k as int);
                    lemma_update(prev, k as int, entry.deep_view().1);
                }
                out.set(k, entry);
                assert(out.deep_view() =~= prev.update(k as int, entries[i as int]));
            },
            None => {
                assert(!has_key(prev, p.key@));
                proof { lemma_push(prev, p.key@, entry.deep_view().1); }
                out.push(entry);
                assert(out.deep_view() =~= prev.push(entries[i as int]));
            },
        }
        i += 1;
    }
    assert(entries.take(params.len() as int) =~= entries);
    out
}

/// The position of the first controller whose id is `id`, if any.
pub open spec fn controller_position(cs: Seq<ControllerView>, id: Seq<char>) -> Option<int> {
    first_some(Seq::new(cs.len(), |i: int| if cs[i].id == id { Some(i) } else { None }))
}

/// The position of the first controller whose id is `id`, if any.
pub fn position_of_controller(controllers: &Vec<PlantController>, id: &String) -> (r: Option<usize>)
    ensures
        match r {
            Some(i) => i < controllers.len() && controller_position(controllers.deep_view(), id@) == Some(i as int),
            None => controller_position(controllers.deep_view(), id@) is None,
        },
{
    let ghost cs = controllers.deep_view();
    let ghost hits = Seq::new(cs.len(), |i: int| if cs[i].id == id@ { Some(i) } else { None });
    let mut i: usize = 0;
    while i < controllers.len()
        invariant
            i <= controllers.len(),
            cs == controllers.deep_view(),
            hits == Seq::new(cs.len(), |i: int| if cs[i].id == id@ { Some(i) } else { None }),
            forall|j: int| 0 <= j < i ==> (#[trigger] hits[j]) is None,
        decreases controllers.len() - i,
    {
        if controllers[i].id == *id {
            proof { lemma_first_some_at(hits, i as int); }
            return Some(i);
        }
        i += 1;
    }
    proof { lemma_first_some_none(hits); }
    None
}

/// A stored controller in the form of a request.
pub open spec fn request_of_controller(c: ControllerView) -> ControllerRequestView {
    ControllerRequestView {
        id: Some(c.id),
        plugin_id: c.plugin_id,
        name: c.name,
        controller_type: c.controller_type,
        active: c.active,
        input_variable_ids: c.input_variable_ids,
        output_variable_ids: c.output_variable_ids,
        params: c.params,
    }
}

/// A stored controller in the form of a request.
pub fn controller_as_request(c: &PlantController) -> (r: CreatePlantControllerRequest)
    ensures
        r.deep_view() == request_of_controller(c.deep_view()),
{
    let inputs = c.input_variable_ids.clone();
    let outputs = c.output_variable_ids.clone();
    let params = c.params.clone();
    assert(inputs.deep_view() =~= c.input_variable_ids.deep_view());
    assert(outputs.deep_view() =~= c.output_variable_ids.deep_view());
    assert(params.deep_view() =~= c.params.deep_view());
    CreatePlantControllerRequest {
        id: Some(c.id.clone()),
        plugin_id: c.plugin_id.clone(),
        name: c.name.clone(),
        controller_type: c.controller_type.clone(),
        active: c.active,
        input_variable_ids: inputs,
        output_variable_ids: outputs,
        params,
    }
}

/// The kinds of the variables of a plant, in order.
pub open spec fn plant_variable_types(vs: Seq<VariableView>) -> Seq<VariableType> {
    vs.map_values(|v: VariableView| v.var_type)
}

/// The variables of a plant in the form of requests.
pub fn variable_requests(variables: &Vec<PlantVariable>) -> (r: Vec<CreatePlantVariableRequest>)
    ensures
        variable_types(r@) == plant_variable_types(variables.deep_view()),
{
    let mut out: Vec<CreatePlantVariableRequest> = Vec::new();
    let mut i: usize = 0;
    while i < variables.len()
        invariant
            i <= variables.len(),
            out.len() == i,
            forall|k: int| 0 <= k < i ==> (#[trigger] out@[k]).var_type == variables@[k].var_type,
        decreases variables.len() - i,
    {
        let v = &variables[i];
        let linked = match &v.linked_sensor_ids {
            Some(ids) => Some(ids.clone()),
            None => None,
        };
        out.push(CreatePlantVariableRequest {
            name: v.name.clone(),
            var_type: v.var_type,
            unit: v.unit.clone(),
            setpoint: v.setpoint,
            pv_min: v.pv_min,
            pv_max: v.pv_max,
            linked_sensor_ids: linked,
        });
        i += 1;
    }
    assert(variable_types(out@) =~= plant_variable_types(variables.deep_view()));
    out
}

/// The controller request that a save describes, with the resolved plugin and
/// the parameters filled from its schema.
pub open spec fn saved_request(req: SavePlantControllerConfigRequest, plugin: PluginView) -> ControllerRequestView {
    ControllerRequestView {
        id: Some(req.controller_id@),
        plugin_id: plugin.id,
        name: req.name@,
        controller_type: req.controller_type@,
        active: req.active,
        input_variable_ids: req.input_variable_ids.deep_view(),
        output_variable_ids: req.output_variable_ids.deep_view(),
        params: filled_params(collected_params(req.params.deep_view()), plugin.schema),
    }
}

/// The controllers checked for conflicting outputs: the stored ones, with the
/// saved one in its place or, when it is new, at the end.
pub open spec fn conflict_set(cs: Seq<ControllerView>, pos: Option<int>, saved: ControllerRequestView) -> Seq<ControllerRequestView> {
    let base = Seq::new(cs.len(), |i: int| if pos == Some(i) { saved } else { request_of_controller(cs[i]) });
    if pos is None {
        base.push(saved)
    } else {
        base
    }
}

/// The controllers checked for conflicting outputs.
pub fn conflict_requests(
    controllers: &Vec<PlantController>,
    pos: Option<usize>,
    saved: &CreatePlantControllerRequest,
) -> (r: Vec<CreatePlantControllerRequest>)
    ensures
        r.deep_view() == conflict_set(controllers.deep_view(), match pos { Some(i) => Some(i as int), None => None }, saved.deep_view()),
{
    let ghost p = match pos { Some(i) => Some(i as int), None => None };
    let ghost target = conflict_set(controllers.deep_view(), p, saved.deep_view());
    let mut out: Vec<CreatePlantControllerRequest> = Vec::new();
    let mut i: usize = 0;
    while i < controllers.len()
        invariant
            i <= controllers.len(),
            out.len() == i,
            p == match pos { Some(i) => Some(i as int), None => None::<int> },
            forall|k: int| 0 <= k < i ==> (#[trigger] out.deep_view()[k]) == (if p == Some(k) {
                saved.deep_view()
            } else {
                request_of_controller(controllers.deep_view()[k])
            }),
        decreases controllers.len() - i,
    {
        let ghost before = out.deep_view();
        let is_saved = match pos { Some(j) => j == i, None => false };
        if is_saved {
            out.push(saved.clone());
        } else {
            out.push(controller_as_request(&controllers[i]));
        }
        assert(out.deep_view() =~= before.push(if p == Some(i as int) {
            saved.deep_view()
        } else {
            request_of_controller(controllers.deep_view()[i as int])
        }));
        i += 1;
    }
    if pos.is_none() {
        let ghost before = out.deep_view();
        out.push(saved.clone());
        assert(out.deep_view() =~= before.push(saved.deep_view()));
    }
    assert(out.deep_view() =~= target);
    out
}

/// A stored controller after a save: the plugin, name, kind, activity, variables
/// and parameters of the save, its id and runtime status kept.
pub open spec fn controller_after_save(
    c: ControllerView,
    req: SavePlantControllerConfigRequest,
    plugin: PluginView,
    params: Seq<(Seq<char>, ControllerParamView)>,
) -> ControllerView {
    ControllerView {
        plugin_id: plugin.id,
        plugin_name: plugin.name,
        name: trimmed(req.name@),
        active: req.active,
        input_variable_ids: req.input_variable_ids.deep_view(),
        output_variable_ids: req.output_variable_ids.deep_view(),
        controller_type: trimmed(req.controller_type@),
        params,
        ..c
    }
}

/// A controller added by a save: active as the save asks, its runtime status
/// synced.
pub open spec fn controller_added_by_save(
    req: SavePlantControllerConfigRequest,
    plugin: PluginView,
    params: Seq<(Seq<char>, ControllerParamView)>,
) -> ControllerView {
    ControllerView {
        id: req.controller_id@,
        plugin_id: plugin.id,
        plugin_name: plugin.name,
        name: trimmed(req.name@),
        controller_type: trimmed(req.controller_type@),
        active: req.active,
        input_variable_ids: req.input_variable_ids.deep_view(),
        output_variable_ids: req.output_variable_ids.deep_view(),
        params,
        runtime_status: ControllerRuntimeStatus::Synced,
    }
}

/// The plant after a save of the controller at `pos` or, when absent, of a new one.
pub open spec fn plant_after_save(
    p: PlantView,
    pos: Option<int>,
    req: SavePlantControllerConfigRequest,
    plugin: PluginView,
    params: Seq<(Seq<char>, ControllerParamView)>,
) -> PlantView {
    PlantView {
        controllers: match pos {
            Some(i) => p.controllers.update(i, controller_after_save(p.controllers[i], req, plugin, params)),
            None => p.controllers.push(controller_added_by_save(req, plugin, params)),
        },
        ..p
    }
}

/// The plant after a save.
pub fn plant_with_saved_controller(
    plant: Plant,
    pos: Option<usize>,
    req: &SavePlantControllerConfigRequest,
    plugin: &PluginRegistry,
    params: &Vec<ParamEntry>,
) -> (r: Plant)
    requires
        pos matches Some(i) ==> i < plant.controllers.len(),
    ensures
        r@ == plant_after_save(plant@, match pos { Some(i) => Some(i as int), None => None }, *req, plugin@, params.deep_view()),
{
    let mut plant = plant;
    let ghost before = plant@;
    let inputs = req.input_variable_ids.clone();
    let outputs = req.output_variable_ids.clone();
    let ps = params.clone();
    assert(inputs.deep_view() =~= req.input_variable_ids.deep_view());
    assert(outputs.deep_view() =~= req.output_variable_ids.deep_view());
    assert(ps.deep_view() =~= params.deep_view());
    match pos {
        Some(i) => {
            let mut c = plant.controllers[i].clone();
            c.plugin_id = plugin.id.clone();
            c.plugin_name = plugin.name.clone();
            c.name = trim(req.name.as_str());
            c.active = req.active;
            c.input_variable_ids = inputs;
            c.output_variable_ids = outputs;
            c.controller_type = trim(req.controller_type.as_str());
            c.params = ps;
            let ghost cs0 = plant.controllers.deep_view();
            plant.controllers.set(i, c);
            assert(plant.controllers.deep_view() =~= cs0.update(i as int, controller_after_save(cs0[i as int], *req, plugin@, params.deep_view())));
        },
        None => {
            let ghost cs0 = plant.controllers.deep_view();
            plant.controllers.push(PlantController {
                id: req.controller_id.clone(),
                plugin_id: plugin.id.clone(),
                plugin_name: plugin.name.clone(),
                name: trim(req.name.as_str()),
                controller_type: trim(req.controller_type.as_str()),
                active: req.active,
                input_variable_ids: inputs,
                output_variable_ids: outputs,
                params: ps,
                runtime_status: ControllerRuntimeStatus::Synced,
            });
            assert(plant.controllers.deep_view() =~= cs0.push(controller_added_by_save(*req, plugin@, params.deep_view())));
        },
    }
    plant
}

/// The plugin a save is for: the one it names, when not blank, else the one of
/// the controller it changes.
pub open spec fn chosen_plugin_id(requested: Option<Seq<char>>, existing: Option<ControllerView>) -> Option<Seq<char>> {
    match requested {
        Some(v) if !blank(v) => Some(v),
        _ => match existing {
            Some(c) => Some(c.plugin_id),
            None => None,
        },
    }
}

/// What saving the configuration of a controller gives: the plant after the
/// save, or the error that refuses it.
pub open spec fn controller_save_outcome(
    s: PlantStoreView,
    plugins: PluginStoreView,
    req: SavePlantControllerConfigRequest,
) -> Result<PlantView, ErrorView> {
    if !has_key(s.entries, req.plant_id@) {
        Err(plant_not_found(req.plant_id@))
    } else {
        let plant = s.plants()[req.plant_id@];
        let pos = controller_position(plant.controllers, req.controller_id@);
        let existing = match pos {
            Some(i) => Some(plant.controllers[i]),
            None => None,
        };
        match chosen_plugin_id(req.plugin_id.deep_view(), existing) {
                None => Err(ErrorView::InvalidArgument("Plugin do controlador é obrigatório"@)),
                Some(pid) => match spec_resolve_plugin(plugins, pid, PluginType::Controller) {
                    Err(e) => Err(e),
                    Ok(plugin) => if plant.connected && (existing matches Some(c) && c.plugin_id != plugin.id) {
                        Err(ErrorView::InvalidArgument("Não é permitido trocar o plugin do controlador com a planta ligada"@))
                    } else {
                        let saved = saved_request(req, plugin);
                        match controller_error(saved, plant_variable_types(plant.variables), plugins) {
                            Some(e) => Err(e),
                            None => match conflict_error(active_outputs(conflict_set(plant.controllers, pos, saved))) {
                                Some(e) => Err(e),
                                None => Ok(plant_after_save(plant, pos, req, plugin, saved.params)),
                            },
                        }
                    },
                },
            }
    }
}

impl PlantService {
    /// Saves the configuration of controller `request.controller_id` of plant
    /// `request.plant_id`, adding the controller when the plant has none with that
    /// id, also while the plant is connected.
    pub fn save_controller_config(
        store: &mut PlantStore,
        plugins: &PluginStore,
        request: SavePlantControllerConfigRequest,
    ) -> (r: AppResult<Plant>)
        requires
            old(store).wf(),
            plugins.wf(),
        ensures
            final(store).wf(),
            match controller_save_outcome(old(store)@, plugins@, request) {
                Ok(p) => (r matches Ok(x) && x@ == p) && final(store)@ == spec_plant_update(old(store)@, request.plant_id@, p).0,
                Err(e) => (r matches Err(x) && x@ == e) && final(store)@ == old(store)@,
            },
    {
        let plant = store.get(request.plant_id.as_str())?;
        let pos = position_of_controller(&plant.controllers, &request.controller_id);
        let plugin_id: String = match &request.plugin_id {
            Some(v) if !is_blank(v.as_str()) => v.clone(),
            _ => match pos {
                Some(i) => plant.controllers[i].plugin_id.clone(),
                None => return Err(invalid_argument("Plugin do controlador é obrigatório")),
            },
        };
        let plugin = resolve_plugin(plugins, plugin_id.as_str(), PluginType::Controller)?;
        if plant.connected {
            if let Some(i) = pos {
                if !(plant.controllers[i].plugin_id == plugin.id) {
                    return Err(invalid_argument("Não é permitido trocar o plugin do controlador com a planta ligada"));
                }
            }
        }
        let current_variables = variable_requests(&plant.variables);
        let mut params = collect_params(&request.params);
        fill_missing_controller_params(&mut params, &plugin);
        let inputs = request.input_variable_ids.clone();
        let outputs = request.output_variable_ids.clone();
        assert(inputs.deep_view() =~= request.input_variable_ids.deep_view());
        assert(outputs.deep_view() =~= request.output_variable_ids.deep_view());
        let controller_request = CreatePlantControllerRequest {
            id: Some(request.controller_id.clone()),
            plugin_id: plugin.id.clone(),
            name: request.name.clone(),
            controller_type: request.controller_type.clone(),
            active: request.active,
            input_variable_ids: inputs,
            output_variable_ids: outputs,
            params,
        };
        assert(controller_request.deep_view() == saved_request(request, plugin@));
        validate_controller(&controller_request, &current_variables, plugins)?;
        let conflicts = conflict_requests(&plant.controllers, pos, &controller_request);
        validate_active_controller_conflicts(&conflicts)?;
        let updated = plant_with_saved_controller(plant, pos, &request, &plugin, &controller_request.params);
        let ghost target = updated@;
        let result = store.update(request.plant_id.as_str(), move |_current: Plant| -> (next: Plant)
            ensures
                next@ == target,
            {
                updated
            });
        result
    }
}

} // verus!
