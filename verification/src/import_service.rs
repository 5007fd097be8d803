//! Opening a plant file, and importing the plant it describes into a store.
use vstd::prelude::*;
use crate::error::{AppError, AppResult, ErrorView, concat2, concat3, invalid_argument};
use crate::first::{collect_results, first_some, lemma_collect_error_persists, lemma_collect_step, lemma_first_some_at, lemma_first_some_none};
use crate::json::{JsonValue, JsonView, parse_json, parsed_view, serde_json_parse, as_object, member, member_of, value_array, value_object};
use crate::keyed::has_key;
use crate::models::{ControllerRequestView, CreatePlantControllerRequest, CreatePlantDriverRequest, CreatePlantRequest, CreatePlantVariableRequest, Plant, PluginType, PluginView, VariableView};
use crate::plant_import::{
    ImportedControllerView, ImportedDriverView, ImportedWorkspaceControllerResponse, ImportedWorkspaceDriverResponse,
    OpenedPlantFile, OpenedPlantView, PlantImportFileRequest, counts_fit, legacy_file, not_object, open_legacy_plant_file,
    open_registry_plant_file, opened_as, registry_file,
};
use crate::plant_service::{PlantService, plant_create_outcome, plant_result};
use crate::plant_store::{PlantStore};
use crate::plugin_import::{ascii_lowered, invalid_json};
use crate::plugin_store::{PluginStore, PluginStoreView, plugins_of_type};
use crate::text::{ascii_lower, to_ascii_lower, to_chars};

verus! {

broadcast use vstd::std_specs::vec::group_vec_axioms;

/// What a plant file gives: an object with `variables` is a registry, any other
/// object an export of recorded data.
pub open spec fn plant_file(doc: JsonView, file_name: Seq<char>) -> Result<OpenedPlantView, ErrorView> {
    match as_object(doc) {
        None => Err(not_object("Arquivo"@)),
        Some(m) => if member_of(m, "variables"@) is Some {
            registry_file(m, file_name)
        } else {
            legacy_file(m, file_name)
        },
    }
}

/// Whether a document is a plant registry: an object with `variables`.
pub open spec fn registry_shape(doc: JsonView) -> bool {
    as_object(doc) matches Some(m) && member_of(m, "variables"@) is Some
}

/// Whether a document is an export whose sensors and actuators cannot be
/// numbered in a `usize`.
pub open spec fn too_large(doc: JsonView) -> bool {
    match as_object(doc) {
        Some(m) => member_of(m, "variables"@) is None && !counts_fit(m),
        None => false,
    }
}

/// Whether two texts are equal when ASCII case is ignored.
pub open spec fn same_ignoring_ascii_case(a: Seq<char>, b: Seq<char>) -> bool {
    ascii_lowered(a) == ascii_lowered(b)
}

/// The plugins whose name is `name`, ASCII case ignored, each at its place.
pub open spec fn name_hits(ps: Seq<PluginView>, name: Seq<char>) -> Seq<Option<PluginView>> {
    Seq::new(ps.len(), |i: int| if same_ignoring_ascii_case(ps[i].name, name) { Some(ps[i]) } else { None })
}

/// The first of the plugins whose name is `name`, ASCII case ignored.
pub open spec fn first_named(ps: Seq<PluginView>, name: Seq<char>) -> Option<PluginView> {
    first_some(name_hits(ps, name))
}

/// The message for a plugin of the wrong kind.
pub open spec fn wrong_kind_message(kind: PluginType, plugin_name: Seq<char>) -> Seq<char> {
    match kind {
        PluginType::Driver => "Plugin '"@ + plugin_name + "' não é um driver válido"@,
        PluginType::Controller => "Plugin '"@ + plugin_name + "' não é um controlador válido"@,
    }
}

/// The message for a plugin that is not loaded.
pub open spec fn not_loaded_message(kind: PluginType, plugin_name: Seq<char>) -> Seq<char> {
    match kind {
        PluginType::Driver => "Driver '"@ + plugin_name + "' não está carregado no sistema"@,
        PluginType::Controller => "Controlador '"@ + plugin_name + "' não está carregado no sistema"@,
    }
}

/// The id of the stored plugin a file refers to: the one stored under its id,
/// when of the right kind, else the first of that kind with its name.
pub open spec fn resolved_import_plugin(plugins: PluginStoreView, id: Seq<char>, name: Seq<char>, kind: PluginType) -> Result<Seq<char>, ErrorView> {
    if has_key(plugins.entries, id) {
        let p = plugins.registries()[id];
        if p.plugin_type != kind {
            Err(ErrorView::InvalidArgument(wrong_kind_message(kind, name)))
        } else {
            Ok(p.id)
        }
    } else {
        match first_named(plugins_of_type(plugins.listed(), kind), name) {
            Some(p) => Ok(p.id),
            None => Err(ErrorView::InvalidArgument(not_loaded_message(kind, name))),
        }
    }
}

/// Whether two texts are equal when ASCII case is ignored.
pub fn eq_ignore_ascii_case(a: &str, b: &str) -> (r: bool)
    ensures
        r == same_ignoring_ascii_case(a@, b@),
{
    let ac = to_chars(a);
    let bc = to_chars(b);
    if ac.len() != bc.len() {
        proof {
            if ascii_lowered(a@) == ascii_lowered(b@) {
                assert(ascii_lowered(a@).len() == a@.len());
            }
        }
        return false;
    }
    let mut i: usize = 0;
    while i < ac.len()
        invariant
            i <= ac.len() == bc.len(),
            ac@ == a@,
            bc@ == b@,
            forall|k: int| 0 <= k < i ==> ascii_lower(ac@[k]) == ascii_lower(bc@[k]),
        decreases ac.len() - i,
    {
        if to_ascii_lower(ac[i]) != to_ascii_lower(bc[i]) {
            assert(ascii_lowered(a@)[i as int] != ascii_lowered(b@)[i as int]);
            return false;
        }
        i += 1;
    }
    assert(ascii_lowered(a@) =~= ascii_lowered(b@));
    true
}

/// The id of the stored plugin a file refers to.
pub fn resolve_import_plugin(plugins: &PluginStore, id: &str, name: &str, kind: PluginType) -> (r: AppResult<String>)
    requires
        plugins.wf(),
    ensures
        match resolved_import_plugin(plugins@, id@, name@, kind) {
            Ok(x) => r matches Ok(y) && y@ == x,
            Err(e) => r matches Err(y) && y@ == e,
        },
{
    match plugins.get(id) {
        Ok(p) => {
            if p.plugin_type != kind {
                let msg = match kind {
                    PluginType::Driver => concat3("Plugin '", name, "' não é um driver válido"),
                    PluginType::Controller => concat3("Plugin '", name, "' não é um controlador válido"),
                };
                return Err(AppError::InvalidArgument(msg));
            }
            return Ok(p.id);
        },
        Err(_) => {},
    }
    let candidates = plugins.list_by_type(kind);
    let ghost ps = candidates.deep_view();
    let ghost hits = name_hits(ps, name@);
    let mut i: usize = 0;
    while i < candidates.len()
        invariant
            i <= candidates.len(),
            ps == candidates.deep_view(),
            ps == plugins_of_type(plugins@.listed(), kind),
            !has_key(plugins@.entries, id@),
            hits == name_hits(ps, name@),
            forall|j: int| 0 <= j < i ==> (#[trigger] hits[j]) is None,
        decreases candidates.len() - i,
    {
        assert(ps[i as int] == candidates@[i as int]@);
        if eq_ignore_ascii_case(candidates[i].name.as_str(), name) {
            proof { lemma_first_some_at(hits, i as int); }
            return Ok(candidates[i].id.clone());
        }
        i += 1;
    }
    proof { lemma_first_some_none(hits); }
    let msg = match kind {
        PluginType::Driver => concat3("Driver '", name, "' não está carregado no sistema"),
        PluginType::Controller => concat3("Controlador '", name, "' não está carregado no sistema"),
    };
    Err(AppError::InvalidArgument(msg))
}

/// The driver request of an imported plant, or why there is none.
pub open spec fn imported_driver_id(plugins: PluginStoreView, d: Option<ImportedDriverView>) -> Result<Seq<char>, ErrorView> {
    match d {
        None => Err(ErrorView::InvalidArgument("Arquivo da planta não contém driver configurado"@)),
        Some(d) => resolved_import_plugin(plugins, d.plugin_id, d.plugin_name, PluginType::Driver),
    }
}

/// The controller request of an imported controller: its plugin resolved, inactive.
pub open spec fn imported_controller_request(plugins: PluginStoreView, c: ImportedControllerView) -> Result<ControllerRequestView, ErrorView> {
    match resolved_import_plugin(plugins, c.plugin_id, c.plugin_name, PluginType::Controller) {
        Err(e) => Err(e),
        Ok(plugin_id) => Ok(ControllerRequestView {
            id: Some(c.id),
            plugin_id,
            name: c.name,
            controller_type: c.controller_type,
            active: false,
            input_variable_ids: c.input_variable_ids,
            output_variable_ids: c.output_variable_ids,
            params: c.params,
        }),
    }
}

/// Each imported controller turned into a request in turn.
pub open spec fn controller_request_results(plugins: PluginStoreView, cs: Seq<ImportedControllerView>) -> Seq<Result<ControllerRequestView, ErrorView>> {
    cs.map_values(|c: ImportedControllerView| imported_controller_request(plugins, c))
}

/// The driver request of an imported plant.
pub fn resolve_imported_driver_request(plugins: &PluginStore, driver: &Option<ImportedWorkspaceDriverResponse>) -> (r: AppResult<CreatePlantDriverRequest>)
    requires
        plugins.wf(),
    ensures
        match imported_driver_id(plugins@, driver.deep_view()) {
            Ok(id) => r matches Ok(d) && d.plugin_id@ == id && d.config.deep_view() == driver.deep_view()->Some_0.config,
            Err(e) => r matches Err(x) && x@ == e,
        },
{
    let d = match driver {
        Some(d) => d,
        None => return Err(invalid_argument("Arquivo da planta não contém driver configurado")),
    };
    let plugin_id = resolve_import_plugin(plugins, d.plugin_id.as_str(), d.plugin_name.as_str(), PluginType::Driver)?;
    let config = d.config.clone();
    assert(config.deep_view() =~= d.config.deep_view());
    Ok(CreatePlantDriverRequest { plugin_id, config })
}

/// The controller requests of an imported plant.
pub fn resolve_imported_controller_requests(
    plugins: &PluginStore,
    controllers: &Vec<ImportedWorkspaceControllerResponse>,
) -> (r: AppResult<Vec<CreatePlantControllerRequest>>)
    requires
        plugins.wf(),
    ensures
        match collect_results(controller_request_results(plugins@, controllers.deep_view())) {
            Ok(cs) => r matches Ok(x) && x.deep_view() == cs,
            Err(e) => r matches Err(x) && x@ == e,
        },
{
    let ghost rs = controller_request_results(plugins@, controllers.deep_view());
    let mut out: Vec<CreatePlantControllerRequest> = Vec::new();
    let mut i: usize = 0;
    assert(rs.take(0) =~= Seq::<Result<ControllerRequestView, ErrorView>>::empty());
    assert(out.deep_view() =~= Seq::<ControllerRequestView>::empty());
    while i < controllers.len()
        invariant
            i <= controllers.len(),
            plugins.wf(),
            rs == controller_request_results(plugins@, controllers.deep_view()),
            collect_results(rs.take(i as int)) == Ok::<Seq<ControllerRequestView>, ErrorView>(out.deep_view()),
        decreases controllers.len() - i,
    {
        proof { lemma_collect_step(rs, i as int); }
        let c = &controllers[i];
        assert(controllers.deep_view()[i as int] == c.deep_view());
        match resolve_import_plugin(plugins, c.plugin_id.as_str(), c.plugin_name.as_str(), PluginType::Controller) {
            Ok(plugin_id) => {
                let inputs = c.input_variable_ids.clone();
                let outputs = c.output_variable_ids.clone();
                let params = c.params.clone();
                assert(inputs.deep_view() =~= c.input_variable_ids.deep_view());
                assert(outputs.deep_view() =~= c.output_variable_ids.deep_view());
                assert(params.deep_view() =~= c.params.deep_view());
                let req = CreatePlantControllerRequest {
                    id: Some(c.id.clone()),
                    plugin_id,
                    name: c.name.clone(),
                    controller_type: c.controller_type.clone(),
                    active: false,
                    input_variable_ids: inputs,
                    output_variable_ids: outputs,
                    params,
                };
                let ghost before = out.deep_view();
                out.push(req);
                assert(out.deep_view() =~= before.push(req.deep_view()));
            },
            Err(e) => {
                proof { lemma_collect_error_persists(rs, i as int + 1); }
                return Err(e);
            },
        }
        i += 1;
    }
    assert(rs.take(controllers.len() as int) =~= rs);
    Ok(out)
}

/// Whether `r` is the request of a plant variable `v`.
pub open spec fn variable_request_of(r: CreatePlantVariableRequest, v: VariableView) -> bool {
    &&& r.name@ == v.name
    &&& r.var_type == v.var_type
    &&& r.unit@ == v.unit
    &&& r.setpoint == v.setpoint
    &&& r.pv_min == v.pv_min
    &&& r.pv_max == v.pv_max
    &&& r.linked_sensor_ids.deep_view() == v.linked_sensor_ids
}

/// The requests of the variables of an imported plant.
pub fn imported_variable_requests(variables: &Vec<crate::models::PlantVariable>) -> (r: Vec<CreatePlantVariableRequest>)
    ensures
        r.len() == variables.len(),
        forall|i: int| 0 <= i < r.len() ==> variable_request_of(#[trigger] r@[i], variables.deep_view()[i]),
{
    let mut out: Vec<CreatePlantVariableRequest> = Vec::new();
    let mut i: usize = 0;
    while i < variables.len()
        invariant
            i <= variables.len(),
            out.len() == i,
            forall|k: int| 0 <= k < i ==> variable_request_of(#[trigger] out@[k], variables.deep_view()[k]),
        decreases variables.len() - i,
    {
        let v = &variables[i];
        let linked = match &v.linked_sensor_ids {
            Some(ids) => {
                let c = ids.clone();
                assert(c.deep_view() =~= ids.deep_view());
                Some(c)
            },
            None => None,
        };
        out.push(CreatePlantVariableRequest {
            name: v.name.clone(),
            var_type: v.var_type,
            unit: v.unit.clone(),
            setpoint: v.setpoint,
            pv_min: v.pv_min,
            pv_max: v.pv_max,
            linked_sensor_ids: linked,
        });
        i += 1;
    }
    out
}

/// Whether `req` is the creation request of an opened plant file.
pub open spec fn import_request_fits(
    req: CreatePlantRequest,
    f: OpenedPlantView,
    sample_time_ms: u64,
    driver_id: Seq<char>,
    controllers: Seq<ControllerRequestView>,
) -> bool {
    &&& req.name@ == f.name
    &&& req.sample_time_ms == sample_time_ms
    &&& req.variables.len() == f.variables.len()
    &&& forall|i: int| 0 <= i < req.variables.len() ==> variable_request_of(#[trigger] req.variables@[i], f.variables[i])
    &&& req.driver.plugin_id@ == driver_id
    &&& req.driver.config.deep_view() == f.driver->Some_0.config
    &&& req.controllers.deep_view() == controllers
}

/// The plant import service.
pub struct PlantImportService;

/// Whether `r` is what opening a plant file named `file_name` gives when its
/// content parsed as `parsed`: the JSON document, or the parser's explanation of
/// why the content is not JSON.
pub open spec fn plant_file_outcome(parsed: Result<JsonView, Seq<char>>, file_name: Seq<char>, r: AppResult<OpenedPlantFile>) -> bool {
    match parsed {
        Err(detail) => r matches Err(x) && x@ == invalid_json(detail),
        Ok(doc) => if too_large(doc) {
            r matches Err(x) && x@ == ErrorView::InternalError
        } else {
            match plant_file(doc, file_name) {
                Ok(f) => r matches Ok(x) && opened_as(x, f) && x.from_registry == registry_shape(doc),
                Err(e) => r matches Err(x) && x@ == e,
            }
        },
    }
}

impl PlantImportService {
    /// What the plant file `request` gives: its text is parsed as JSON, then read
    /// as [`Self::open_document`] reads it.
    pub fn open_file(request: PlantImportFileRequest) -> (r: AppResult<OpenedPlantFile>)
        ensures
            plant_file_outcome(serde_json_parse(request.content@), request.file_name@, r),
    {
        let parsed = parse_json(request.content.as_str());
        Self::open_document(&request, parsed)
    }

    /// What the plant file `request` gives, from its content as parsed: the JSON
    /// document, or the parser's explanation of why the content is not JSON.
    pub fn open_document(request: &PlantImportFileRequest, parsed: Result<JsonValue, String>) -> (r: AppResult<OpenedPlantFile>)
        ensures
            plant_file_outcome(parsed_view(parsed), request.file_name@, r),
    {
        let doc = match parsed {
            Ok(doc) => doc,
            Err(detail) => return Err(AppError::InvalidArgument(concat2("JSON inválido: ", detail.as_str()))),
        };
        let root = match value_object(&doc) {
            Some(m) => m,
            None => return Err(AppError::InvalidArgument(concat2("Arquivo", " deve ser um objeto"))),
        };
        if member(root, "variables").is_some() {
            return open_registry_plant_file(root, request.file_name.as_str());
        }
        let sensors = match member(root, "sensors") {
            Some(x) => match value_array(x) { Some(items) => Some(items.len()), None => None },
            None => None,
        };
        let actuators = match member(root, "actuators") {
            Some(x) => match value_array(x) { Some(items) => Some(items.len()), None => None },
            None => None,
        };
        if let (Some(s), Some(a)) = (sensors, actuators) {
            if s >= usize::MAX - a {
                return Err(AppError::InternalError);
            }
        }
        open_legacy_plant_file(root, request.file_name.as_str())
    }

    /// Creates, in `plants`, the plant of an opened file: its driver and
    /// controllers resolved among the stored plugins (by id, else by name), its
    /// controllers inactive. `sample_time_ms` is the plant's sample time and `dt`
    /// the bit pattern of it in seconds.
    pub fn import_file(
        plants: &mut PlantStore,
        plugins: &PluginStore,
        opened: &OpenedPlantFile,
        sample_time_ms: u64,
        dt: u64,
    ) -> (r: AppResult<Plant>)
        requires
            old(plants).wf(),
            plugins.wf(),
        ensures
            final(plants).wf(),
            match imported_driver_id(plugins@, opened.deep_view().driver) {
                Err(e) => (r matches Err(x) && x@ == e) && final(plants)@ == old(plants)@,
                Ok(driver_id) => match collect_results(controller_request_results(plugins@, opened.deep_view().controllers)) {
                    Err(e) => (r matches Err(x) && x@ == e) && final(plants)@ == old(plants)@,
                    Ok(controllers) => exists|req: CreatePlantRequest| #[trigger] import_request_fits(req, opened.deep_view(), sample_time_ms, driver_id, controllers)
                        && plant_create_outcome(old(plants)@, plugins@, req, dt, final(plants)@, plant_result(r)),
                },
            },
    {
        let driver = resolve_imported_driver_request(plugins, &opened.driver)?;
        let controllers = resolve_imported_controller_requests(plugins, &opened.controllers)?;
        let variables = imported_variable_requests(&opened.variables);
        let request = CreatePlantRequest {
            name: opened.name.clone(),
            sample_time_ms,
            variables,
            driver,
            controllers,
        };
        let ghost req = request;
        assert(import_request_fits(req, opened.deep_view(), sample_time_ms,
            imported_driver_id(plugins@, opened.deep_view().driver)->Ok_0,
            collect_results(controller_request_results(plugins@, opened.deep_view().controllers))->Ok_0));
        PlantService::create(plants, plugins, request, dt)
    }
}

/// A plant file as the interface sends it: its name and its text.
#[derive(Debug)]
pub struct ImportFileRequest {
    pub file_name: String,
    pub content: String,
}

impl ImportFileRequest {
    /// The request as the import service takes it.
    pub fn into_plant_import_request(self) -> (r: PlantImportFileRequest)
        ensures
            r.file_name@ == self.file_name@,
            r.content@ == self.content@,
    {
        PlantImportFileRequest { file_name: self.file_name, content: self.content }
    }
}

} // verus!
