//! What a plant needs to run: its driver and controllers found among the
//! installed plugins, and the payload that starts its runtime.
//!
//! Finding plugins may call for loading the plugins of the workspace from disk.
//! That load is the caller's: a lookup that misses before it says so, and the
//! resolution of a plant stops there and resumes, from the same controller,
//! once the store holds what the workspace has.
use vstd::prelude::*;
use crate::controller_params::{fill_missing_controller_params, filled_params};
use crate::error::{AppError, AppResult, ErrorView, concat3, concat5, invalid_argument};
use crate::first::{first_some, lemma_first_some_at, lemma_first_some_none};
use crate::keyed::has_key;
use crate::keyed::Keyed;
use crate::models::{
    ConfigEntry, ControllerView, DriverView, ParamEntry, Plant, PlantController, PlantVariable, PlantView, PluginRegistry,
    PluginRuntime, PluginType, PluginView, VariableType, VariableView,
};
use crate::runtime_service::{collect_runtime_setpoints, runtime_setpoints};
use crate::plant_store::{PlantStore, spec_plant_replace};
use crate::plugin_store::{PluginStore, PluginStoreView};
use crate::text::{blank, is_blank, name_key_of};
use crate::workspace::{APP_WORKSPACE_DIR, CONTROLLERS_DIR, documents_directory, documents_missing, entity_path_in, entity_path_outcome, lemma_components, path_view, workspace_component, workspace_entry};

verus! {

broadcast use vstd::std_specs::vec::group_vec_axioms;

/// `e` as a match for a plugin of kind `t` named like `name`.
pub open spec fn named_entry(e: (Seq<char>, PluginView), t: PluginType, name: Seq<char>) -> Option<PluginView> {
    if e.1.plugin_type == t && name_key_of(e.1.name) == name_key_of(name) {
        Some(e.1)
    } else {
        None
    }
}

/// The stored registries as matches for a plugin of kind `t` named like `name`.
pub open spec fn named_entries(entries: Seq<(Seq<char>, PluginView)>, t: PluginType, name: Seq<char>) -> Seq<Option<PluginView>> {
    entries.map_values(|e: (Seq<char>, PluginView)| named_entry(e, t, name))
}

/// The plugin a plant refers to by `id` and `name`: the one stored under `id`
/// when it is of kind `t`; else, when `name` is not blank, the first stored
/// plugin of kind `t` named like `name`.
pub open spec fn runtime_lookup(s: PluginStoreView, id: Seq<char>, name: Seq<char>, t: PluginType) -> Option<PluginView> {
    if has_key(s.entries, id) && s.registries()[id].plugin_type == t {
        Some(s.registries()[id])
    } else if !blank(name) {
        first_some(named_entries(s.entries, t, name))
    } else {
        None
    }
}

/// The plugin a plant refers to by id and name, among the stored ones.
pub fn find_runtime_plugin(plugins: &PluginStore, plugin_id: &str, plugin_name: &str, expected_type: PluginType) -> (r: Option<PluginRegistry>)
    requires
        plugins.wf(),
    ensures
        match runtime_lookup(plugins@, plugin_id@, plugin_name@, expected_type) {
            Some(p) => r matches Some(x) && x@ == p,
            None => r is None,
        },
{
    match plugins.get(plugin_id) {
        Ok(p) => {
            if p.plugin_type == expected_type {
                return Some(p);
            }
        },
        Err(_) => {},
    }
    if is_blank(plugin_name) {
        return None;
    }
    let found = plugins.find_by_type_and_name(expected_type, plugin_name);
    proof {
        let s = named_entries(plugins@.entries, expected_type, plugin_name@);
        match found {
            Some(ref p) => {
                let i = choose|i: int| 0 <= i < plugins@.entries.len()
                    && (#[trigger] plugins@.entries[i]).1 == p@
                    && p@.plugin_type == expected_type
                    && name_key_of(p@.name) == name_key_of(plugin_name@)
                    && forall|j: int| 0 <= j < i ==> !(plugins@.entries[j].1.plugin_type == expected_type
                        && name_key_of(plugins@.entries[j].1.name) == name_key_of(plugin_name@));
                assert forall|j: int| 0 <= j < i implies (#[trigger] s[j]) is None by {
                    assert(s[j] == named_entry(plugins@.entries[j], expected_type, plugin_name@));
                }
                lemma_first_some_at(s, i);
            },
            None => {
                assert forall|j: int| 0 <= j < s.len() implies (#[trigger] s[j]) is None by {
                    assert(s[j] == named_entry(plugins@.entries[j], expected_type, plugin_name@));
                }
                lemma_first_some_none(s);
            },
        }
    }
    found
}

/// The answer to a lookup of the plugin a plant refers to.
#[derive(Debug)]
pub enum RuntimePluginResolution {
    /// The plugin.
    Found(PluginRegistry),
    /// No such plugin, with the workspace loaded already.
    Missing,
    /// No such plugin in the store: load the plugins of the workspace into it
    /// and look again.
    LoadWorkspace,
}

/// Looks up the plugin a plant refers to; when it is not stored and the
/// workspace has not been loaded yet, asks for that load.
pub fn resolve_plugin_for_runtime(
    plugins: &PluginStore,
    plugin_id: &str,
    plugin_name: &str,
    expected_type: PluginType,
    loaded_from_workspace: bool,
) -> (r: RuntimePluginResolution)
    requires
        plugins.wf(),
    ensures
        match runtime_lookup(plugins@, plugin_id@, plugin_name@, expected_type) {
            Some(p) => r matches RuntimePluginResolution::Found(x) && x@ == p,
            None => if loaded_from_workspace {
                r is Missing
            } else {
                r is LoadWorkspace
            },
        },
{
    match find_runtime_plugin(plugins, plugin_id, plugin_name, expected_type) {
        Some(p) => RuntimePluginResolution::Found(p),
        None => if loaded_from_workspace {
            RuntimePluginResolution::Missing
        } else {
            RuntimePluginResolution::LoadWorkspace
        },
    }
}

/// An active controller of a plant with the plugin that runs it and that
/// plugin's directory.
#[derive(Debug)]
pub struct ResolvedRuntimeController {
    pub instance: PlantController,
    pub plugin: PluginRegistry,
    pub plugin_dir: Vec<String>,
}

impl DeepView for ResolvedRuntimeController {
    type V = (ControllerView, PluginView);

    open spec fn deep_view(&self) -> (ControllerView, PluginView) {
        (self.instance.deep_view(), self.plugin@)
    }
}

/// Whether `dir` is the workspace directory of the controller plugin `p`.
pub open spec fn controller_dir_of(dir: Seq<String>, p: PluginView) -> bool {
    workspace_component(p.name, "plugin"@) matches Ok(n) && workspace_entry(dir, CONTROLLERS_DIR@, n)
}

/// Whether each resolved controller carries its plugin's directory.
pub open spec fn dirs_placed(cs: Seq<ResolvedRuntimeController>) -> bool {
    forall|i: int| 0 <= i < cs.len() ==> controller_dir_of((#[trigger] cs[i]).plugin_dir@, cs[i].plugin@)
}

/// A resolution of the plugins of a plant, under way or done: the plant as
/// brought in step with its plugins so far, its driver, the next controller to
/// resolve, the active controllers resolved, the plugins the runtime needs, and
/// whether the plant changed.
#[derive(Debug)]
pub struct ConnectResolution {
    pub plant: Plant,
    pub driver: PluginRegistry,
    pub next_controller: usize,
    pub active_controllers: Vec<ResolvedRuntimeController>,
    pub runtime_plugins: Vec<PluginRegistry>,
    pub plant_changed: bool,
}

/// The view of a [`ConnectResolution`], the directories left out.
pub struct ConnectView {
    pub plant: PlantView,
    pub driver: PluginView,
    pub next: int,
    pub active: Seq<(ControllerView, PluginView)>,
    pub runtime_plugins: Seq<PluginView>,
    pub changed: bool,
}

impl View for ConnectResolution {
    type V = ConnectView;

    open spec fn view(&self) -> ConnectView {
        ConnectView {
            plant: self.plant@,
            driver: self.driver@,
            next: self.next_controller as int,
            active: self.active_controllers.deep_view(),
            runtime_plugins: self.runtime_plugins.deep_view(),
            changed: self.plant_changed,
        }
    }
}

/// Whether the driver of a plant names the plugin `p` as it is.
pub open spec fn driver_in_step(d: DriverView, p: PluginView) -> bool {
    d.plugin_id == p.id && d.plugin_name == p.name && d.runtime == p.runtime && d.source_file == p.source_file
}

/// The driver of a plant brought in step with its plugin `p`.
pub open spec fn driver_synced(d: DriverView, p: PluginView) -> DriverView {
    DriverView { plugin_id: p.id, plugin_name: p.name, runtime: p.runtime, source_file: p.source_file, source_code: None, ..d }
}

pub open spec fn driver_not_found(plant_name: Seq<char>) -> ErrorView {
    ErrorView::NotFound("Driver da planta '"@ + plant_name + "' não foi encontrado"@)
}

pub open spec fn driver_not_python() -> ErrorView {
    ErrorView::InvalidArgument("A runtime atual suporta apenas drivers Python"@)
}

/// How a resolution starts from the driver a plant's lookup found: refused
/// when there is none or it is not Python; else with the plant's driver in step
/// with it and the driver as the first plugin the runtime needs.
pub open spec fn connect_start(plant: PlantView, driver: Option<PluginView>) -> Result<ConnectView, ErrorView> {
    match driver {
        None => Err(driver_not_found(plant.name)),
        Some(d) => if d.runtime != PluginRuntime::Python {
            Err(driver_not_python())
        } else {
            let changed = !driver_in_step(plant.driver, d);
            Ok(ConnectView {
                plant: if changed { PlantView { driver: driver_synced(plant.driver, d), ..plant } } else { plant },
                driver: d,
                next: 0,
                active: Seq::empty(),
                runtime_plugins: seq![d],
                changed,
            })
        },
    }
}

/// Whether two optional texts are the same.
pub fn same_optional_text(a: &Option<String>, b: &Option<String>) -> (r: bool)
    ensures
        r == (a.deep_view() == b.deep_view()),
{
    match a {
        Some(x) => match b {
            Some(y) => {
                let same = *x == *y;
                assert(same == (x@ == y@));
                same
            },
            None => false,
        },
        None => b.is_none(),
    }
}

/// Starts the resolution of `plant` from the driver its lookup found.
pub fn begin_connect_resolution(plant: Plant, driver: Option<PluginRegistry>) -> (r: AppResult<ConnectResolution>)
    ensures
        match connect_start(plant@, match driver { Some(d) => Some(d@), None => None }) {
            Ok(v) => r matches Ok(x) && x@ == v && x.active_controllers.len() == 0,
            Err(e) => r matches Err(x) && x@ == e,
        },
{
    let d = match driver {
        Some(d) => d,
        None => return Err(AppError::NotFound(concat3("Driver da planta '", plant.name.as_str(), "' não foi encontrado"))),
    };
    let changed = !(plant.driver.plugin_id == d.id) || !(plant.driver.plugin_name == d.name)
        || plant.driver.runtime != d.runtime || !same_optional_text(&plant.driver.source_file, &d.source_file);
    if d.runtime != PluginRuntime::Python {
        return Err(invalid_argument("A runtime atual suporta apenas drivers Python"));
    }
    let mut plant = plant;
    if changed {
        plant.driver.plugin_id = d.id.clone();
        plant.driver.plugin_name = d.name.clone();
        plant.driver.runtime = d.runtime;
        plant.driver.source_file = d.source_file.clone();
        plant.driver.source_code = None;
    }
    let mut runtime_plugins: Vec<PluginRegistry> = Vec::new();
    runtime_plugins.push(d.clone());
    let r = ConnectResolution {
        plant,
        driver: d,
        next_controller: 0,
        active_controllers: Vec::new(),
        runtime_plugins,
        plant_changed: changed,
    };
    assert(r@.active =~= Seq::<(ControllerView, PluginView)>::empty());
    assert(r@.runtime_plugins =~= seq![r@.driver]);
    Ok(r)
}

/// Whether a plugin with id `id` is among `ps`.
pub open spec fn has_plugin_id(ps: Seq<PluginView>, id: Seq<char>) -> bool {
    exists|i: int| 0 <= i < ps.len() && (#[trigger] ps[i]).id == id
}

/// Whether a plugin with id `id` is among `ps`.
pub fn contains_plugin_id(ps: &Vec<PluginRegistry>, id: &String) -> (r: bool)
    ensures
        r == has_plugin_id(ps.deep_view(), id@),
{
    let mut i: usize = 0;
    while i < ps.len()
        invariant
            i <= ps.len(),
            forall|k: int| 0 <= k < i ==> (#[trigger] ps.deep_view()[k]).id != id@,
        decreases ps.len() - i,
    {
        if ps[i].id == *id {
            assert(ps.deep_view()[i as int].id == id@);
            return true;
        }
        i += 1;
    }
    false
}

/// One step of a resolution: the next state, a load of the workspace that
/// must come first, or the error that ends it.
pub enum StepView {
    Next(ConnectView),
    Load,
    Fail(ErrorView),
}

pub open spec fn controller_not_loaded(controller_name: Seq<char>, plant_name: Seq<char>) -> ErrorView {
    ErrorView::NotFound("Controlador '"@ + controller_name + "' da planta '"@ + plant_name + "' não está carregado"@)
}

pub open spec fn controller_not_python(controller_name: Seq<char>) -> ErrorView {
    ErrorView::InvalidArgument("O controlador '"@ + controller_name + "' precisa ser Python para executar na runtime atual"@)
}

/// The resolution of controller `v.next`: its plugin is looked up; when there is
/// none, an active controller is refused, once the workspace is loaded; when there
/// is one, the controller gets the plugin's missing parameter defaults and the
/// plugin's id and name, the plugin joins those the runtime needs, and an active
/// controller, which must be Python and have a valid directory name, joins the
/// resolved ones.
pub open spec fn controller_step(s: PluginStoreView, v: ConnectView, loaded: bool) -> StepView {
    controller_step_with(s, v, loaded, true)
}

/// [`controller_step`] when the documents directory, under which the directory
/// of an active controller's plugin is looked for, is found (`found`) or not:
/// when it is not, the first active Python controller ends the resolution with
/// the error of a missing documents directory.
pub open spec fn controller_step_with(s: PluginStoreView, v: ConnectView, loaded: bool, found: bool) -> StepView {
    let c = v.plant.controllers[v.next];
    match runtime_lookup(s, c.plugin_id, c.plugin_name, PluginType::Controller) {
        None => if !loaded {
            StepView::Load
        } else if c.active {
            StepView::Fail(controller_not_loaded(c.name, v.plant.name))
        } else {
            StepView::Next(ConnectView { next: v.next + 1, ..v })
        },
        Some(p) => {
            let params = filled_params(c.params, p.schema);
            let c2 = ControllerView { params, plugin_id: p.id, plugin_name: p.name, ..c };
            let rp = if has_plugin_id(v.runtime_plugins, p.id) { v.runtime_plugins } else { v.runtime_plugins.push(p) };
            let changed = v.changed || params.len() != c.params.len() || c.plugin_id != p.id || c.plugin_name != p.name;
            let plant = PlantView { controllers: v.plant.controllers.update(v.next, c2), ..v.plant };
            let base = ConnectView { plant, next: v.next + 1, runtime_plugins: rp, changed, ..v };
            if !c.active {
                StepView::Next(base)
            } else if p.runtime != PluginRuntime::Python {
                StepView::Fail(controller_not_python(c.name))
            } else if !found {
                StepView::Fail(documents_missing())
            } else {
                match workspace_component(p.name, "plugin"@) {
                    Err(e) => StepView::Fail(e),
                    Ok(_) => StepView::Next(ConnectView { active: v.active.push((c2, p)), ..base }),
                }
            }
        },
    }
}

/// A step moves to the next controller and keeps the plant's controllers.
pub proof fn lemma_step_advances(s: PluginStoreView, v: ConnectView, loaded: bool)
    requires
        0 <= v.next < v.plant.controllers.len(),
    ensures
        controller_step(s, v, loaded) matches StepView::Next(w) ==> w.next == v.next + 1
            && w.plant.controllers.len() == v.plant.controllers.len(),
{
}

/// A step, whether or not the documents directory is found, moves to the next
/// controller and keeps the plant's controllers and their activity.
pub proof fn lemma_step_with_advances(s: PluginStoreView, v: ConnectView, loaded: bool, found: bool)
    requires
        0 <= v.next < v.plant.controllers.len(),
    ensures
        controller_step_with(s, v, loaded, found) matches StepView::Next(w) ==> w.next == v.next + 1
            && w.plant.controllers.len() == v.plant.controllers.len()
            && forall|i: int| 0 <= i < w.plant.controllers.len() ==>
                (#[trigger] w.plant.controllers[i]).active == v.plant.controllers[i].active,
{
}

/// Where a resolution ends: done, waiting for the workspace, or refused.
pub enum RunView {
    Done(ConnectView),
    Load(ConnectView),
    Fail(ErrorView),
}

/// The resolution of the remaining controllers, in order, from `v`.
pub open spec fn connect_run(s: PluginStoreView, v: ConnectView, loaded: bool) -> RunView {
    connect_run_with(s, v, loaded, true)
}

/// The resolution of the remaining controllers, in order, from `v`, when the
/// documents directory is found (`found`) or not.
pub open spec fn connect_run_with(s: PluginStoreView, v: ConnectView, loaded: bool, found: bool) -> RunView
    decreases v.plant.controllers.len() - v.next,
{
    if v.next < 0 || v.next >= v.plant.controllers.len() {
        RunView::Done(v)
    } else {
        match controller_step_with(s, v, loaded, found) {
            StepView::Next(w) => {
                proof {
                    lemma_step_with_advances(s, v, loaded, found);
                }
                connect_run_with(s, w, loaded, found)
            },
            StepView::Load => RunView::Load(v),
            StepView::Fail(e) => RunView::Fail(e),
        }
    }
}

/// Whether no controller from `v.next` on is active.
pub open spec fn none_active_from(v: ConnectView) -> bool {
    forall|i: int| v.next <= i < v.plant.controllers.len() ==> !(#[trigger] v.plant.controllers[i]).active
}

/// When no remaining controller is active, no plugin directory is looked for,
/// so whether the documents directory is found does not change the resolution.
pub proof fn lemma_run_without_lookup(s: PluginStoreView, v: ConnectView, loaded: bool)
    requires
        0 <= v.next,
        none_active_from(v),
    ensures
        connect_run_with(s, v, loaded, false) == connect_run_with(s, v, loaded, true),
    decreases v.plant.controllers.len() - v.next,
{
    if v.next < v.plant.controllers.len() {
        lemma_step_with_advances(s, v, loaded, false);
        lemma_step_with_advances(s, v, loaded, true);
        assert(!v.plant.controllers[v.next].active);
        assert(controller_step_with(s, v, loaded, false) == controller_step_with(s, v, loaded, true));
        if let StepView::Next(w) = controller_step_with(s, v, loaded, true) {
            assert(none_active_from(w)) by {
                assert forall|i: int| w.next <= i < w.plant.controllers.len() implies !(#[trigger] w.plant.controllers[i]).active by {
                    assert(w.plant.controllers[i].active == v.plant.controllers[i].active);
                }
            }
            lemma_run_without_lookup(s, w, loaded);
        }
    }
}

/// Whether `r` is what a call of [`continue_connect_resolution`] gives when the
/// resolution runs as `run`.
pub open spec fn connect_result(run: RunView, r: AppResult<ConnectStep>) -> bool {
    match run {
        RunView::Done(w) => r matches Ok(ConnectStep::Resolved(x)) && x@ == w && dirs_placed(x.active_controllers@),
        RunView::Load(w) => r matches Ok(ConnectStep::LoadWorkspace(x)) && x@ == w && dirs_placed(x.active_controllers@)
            && x.next_controller <= x.plant.controllers.len(),
        RunView::Fail(f) => r matches Err(e) && e@ == f,
    }
}

/// Whether the controllers resolved from position `from` on carry directories
/// under the documents directory `documents`.
pub open spec fn dirs_under(r: AppResult<ConnectStep>, from: int, documents: Option<Seq<char>>) -> bool {
    let cs = match r {
        Ok(ConnectStep::Resolved(x)) => x.active_controllers@,
        Ok(ConnectStep::LoadWorkspace(x)) => x.active_controllers@,
        Err(_) => Seq::empty(),
    };
    forall|k: int| from <= k < cs.len() ==> documents == Some((#[trigger] cs[k]).plugin_dir@[0]@)
}

/// How a call of [`continue_connect_resolution`] ends.
#[derive(Debug)]
pub enum ConnectStep {
    /// Every controller is resolved.
    Resolved(ConnectResolution),
    /// The workspace must be loaded into the store; the resolution resumes from here.
    LoadWorkspace(ConnectResolution),
}

/// Resolves the remaining controllers of a plant, in order, until all are
/// resolved or one calls for a load of the workspace; the directory of each
/// active controller's plugin is placed under the documents directory the
/// platform reports, as [`continue_connect_resolution_in`] does.
pub fn continue_connect_resolution(plugins: &PluginStore, resolution: ConnectResolution, loaded_from_workspace: bool) -> (r: AppResult<ConnectStep>)
    requires
        plugins.wf(),
        resolution.next_controller <= resolution.plant.controllers.len(),
        dirs_placed(resolution.active_controllers@),
    ensures
        exists|found: bool| connect_result(connect_run_with(plugins@, resolution@, loaded_from_workspace, found), r),
        connect_run_with(plugins@, resolution@, loaded_from_workspace, false)
            == connect_run_with(plugins@, resolution@, loaded_from_workspace, true)
            ==> connect_result(connect_run(plugins@, resolution@, loaded_from_workspace), r),
        none_active_from(resolution@) ==> connect_result(connect_run(plugins@, resolution@, loaded_from_workspace), r),
{
    let documents = documents_directory();
    let ghost found = documents is Some;
    proof {
        if none_active_from(resolution@) {
            lemma_run_without_lookup(plugins@, resolution@, loaded_from_workspace);
        }
    }
    let r = continue_connect_resolution_in(plugins, resolution, loaded_from_workspace, &documents);
    assert(connect_result(connect_run_with(plugins@, resolution@, loaded_from_workspace, found), r));
    r
}

/// Resolves the remaining controllers of a plant, in order, until all are
/// resolved or one calls for a load of the workspace, the directory of each
/// active controller's plugin placed under the documents directory `documents`;
/// without one, the first active Python controller ends the resolution with the
/// error of a missing documents directory.
pub fn continue_connect_resolution_in(
    plugins: &PluginStore,
    resolution: ConnectResolution,
    loaded_from_workspace: bool,
    documents: &Option<String>,
) -> (r: AppResult<ConnectStep>)
    requires
        plugins.wf(),
        resolution.next_controller <= resolution.plant.controllers.len(),
        dirs_placed(resolution.active_controllers@),
    ensures
        connect_result(connect_run_with(plugins@, resolution@, loaded_from_workspace, documents is Some), r),
        dirs_under(r, resolution.active_controllers@.len() as int, documents.deep_view()),
{
    let ghost s = plugins@;
    let ghost found = documents is Some;
    let ghost from = resolution.active_controllers@.len() as int;
    let ghost target = connect_run_with(s, resolution@, loaded_from_workspace, found);
    let mut res = resolution;
    while res.next_controller < res.plant.controllers.len()
        invariant
            plugins.wf(),
            s == plugins@,
            res.next_controller <= res.plant.controllers.len(),
            dirs_placed(res.active_controllers@),
            connect_run_with(s, res@, loaded_from_workspace, found) == target,
            target == connect_run_with(s, resolution@, loaded_from_workspace, found),
            found == documents is Some,
            from == resolution.active_controllers@.len(),
            from <= res.active_controllers@.len(),
            forall|k: int| from <= k < res.active_controllers@.len()
                ==> documents.deep_view() == Some((#[trigger] res.active_controllers@[k]).plugin_dir@[0]@),
        decreases res.plant.controllers.len() - res.next_controller,
    {
        let i = res.next_controller;
        let ghost v = res@;
        assert(v.plant.controllers[i as int] == res.plant.controllers@[i as int].deep_view());
        let lookup = {
            let c = &res.plant.controllers[i];
            resolve_plugin_for_runtime(plugins, c.plugin_id.as_str(), c.plugin_name.as_str(), PluginType::Controller,
                loaded_from_workspace)
        };
        match lookup {
            RuntimePluginResolution::LoadWorkspace => {
                assert(controller_step_with(s, v, loaded_from_workspace, found) is Load);
                assert(connect_run_with(s, v, loaded_from_workspace, found) == RunView::Load(v));
                return Ok(ConnectStep::LoadWorkspace(res));
            },
            RuntimePluginResolution::Missing => {
                if res.plant.controllers[i].active {
                    return Err(AppError::NotFound(concat5("Controlador '", res.plant.controllers[i].name.as_str(),
                        "' da planta '", res.plant.name.as_str(), "' não está carregado")));
                }
                res.next_controller = i + 1;
                assert(res@ == ConnectView { next: v.next + 1, ..v });
            },
            RuntimePluginResolution::Found(p) => {
                let mut c = res.plant.controllers[i].clone();
                let ghost c0 = c.deep_view();
                let filled = fill_missing_controller_params(&mut c.params, &p);
                if !contains_plugin_id(&res.runtime_plugins, &p.id) {
                    let ghost before = res.runtime_plugins.deep_view();
                    res.runtime_plugins.push(p.clone());
                    assert(res.runtime_plugins.deep_view() =~= before.push(p@));
                }
                let controller_changed = !(c.plugin_id == p.id) || !(c.plugin_name == p.name);
                if controller_changed {
                    c.plugin_id = p.id.clone();
                    c.plugin_name = p.name.clone();
                }
                if filled || controller_changed {
                    res.plant_changed = true;
                }
                let ghost c2 = c.deep_view();
                assert(c2 == ControllerView { params: filled_params(c0.params, p@.schema), plugin_id: p@.id, plugin_name: p@.name, ..c0 });
                if c.active {
                    if p.runtime != PluginRuntime::Python {
                        return Err(AppError::InvalidArgument(concat3("O controlador '", c.name.as_str(),
                            "' precisa ser Python para executar na runtime atual")));
                    }
                    let plugin_dir = match entity_path_in(optional_text(documents), p.name.as_str(), "plugin", CONTROLLERS_DIR) {
                        Ok(d) => d,
                        Err(e) => {
                            assert(controller_step_with(s, v, loaded_from_workspace, found) == StepView::Fail(e@));
                            assert(connect_run_with(s, v, loaded_from_workspace, found) == RunView::Fail(e@));
                            return Err(e);
                        },
                    };
                    proof {
                        lemma_components(plugin_dir);
                        let x = entity_path_outcome(documents.deep_view(), p.name@, "plugin"@, CONTROLLERS_DIR@);
                        assert(path_view(Ok::<Vec<String>, AppError>(plugin_dir)) == x);
                        assert(x is Ok);
                        assert(documents.deep_view() is Some);
                        assert(plugin_dir.deep_view() == x->Ok_0);
                        assert(x->Ok_0[0] == documents.deep_view()->Some_0);
                        assert(plugin_dir.deep_view()[0] == plugin_dir@[0]@);
                        assert(plugin_dir@[0]@ == documents.deep_view()->Some_0);
                        assert(plugin_dir.deep_view()[1] == plugin_dir@[1]@);
                        assert(plugin_dir.deep_view()[2] == plugin_dir@[2]@);
                        assert(plugin_dir.deep_view()[3] == plugin_dir@[3]@);
                        assert(x->Ok_0[1] == APP_WORKSPACE_DIR@);
                        assert(x->Ok_0[2] == CONTROLLERS_DIR@);
                        assert(plugin_dir@[1]@ == APP_WORKSPACE_DIR@);
                        assert(plugin_dir@[2]@ == CONTROLLERS_DIR@);
                        assert(plugin_dir@[3]@ == workspace_component(p@.name, "plugin"@)->Ok_0);
                    }
                    let ghost before_cs = res.plant.controllers.deep_view();
                    res.plant.controllers.set(i, c.clone());
                    assert(res.plant.controllers.deep_view() =~= before_cs.update(i as int, c2));
                    let ghost before_active = res.active_controllers@;
                    let resolved = ResolvedRuntimeController { instance: c, plugin: p, plugin_dir };
                    assert(controller_dir_of(resolved.plugin_dir@, resolved.plugin@));
                    res.active_controllers.push(resolved);
                    assert(res.active_controllers@ == before_active.push(resolved));
                    assert(res.active_controllers.deep_view() =~= v.active.push((c2, p@)));
                    assert forall|k: int| from <= k < res.active_controllers@.len()
                        implies documents.deep_view() == Some((#[trigger] res.active_controllers@[k]).plugin_dir@[0]@) by {
                        assert(res.active_controllers@ == before_active.push(resolved));
                        if k < before_active.len() {
                            assert(res.active_controllers@[k] == before_active[k]);
                            assert(documents.deep_view() == Some(before_active[k].plugin_dir@[0]@));
                        } else {
                            assert(res.active_controllers@[k] == resolved);
                        }
                    }
                    assert(dirs_placed(res.active_controllers@)) by {
                        assert forall|k: int| 0 <= k < res.active_controllers@.len() implies
                            controller_dir_of((#[trigger] res.active_controllers@[k]).plugin_dir@, res.active_controllers@[k].plugin@) by {
                            if k < before_active.len() {
                                assert(res.active_controllers@[k] == before_active[k]);
                            }
                        }
                    }
                } else {
                    let ghost before_cs = res.plant.controllers.deep_view();
                    res.plant.controllers.set(i, c);
                    assert(res.plant.controllers.deep_view() =~= before_cs.update(i as int, c2));
                }
                res.next_controller = i + 1;
            },
        }
        proof {
            lemma_step_with_advances(s, v, loaded_from_workspace, found);
        }
    }
    Ok(ConnectStep::Resolved(res))
}

/// An owned copy of an optional text.
fn optional_text(t: &Option<String>) -> (r: Option<String>)
    ensures
        r.deep_view() == t.deep_view(),
{
    match t {
        Some(x) => Some(x.clone()),
        None => None,
    }
}

/// Stores the plant a resolution brought in step with its plugins, when it changed.
pub fn store_resolved_plant(plants: &mut PlantStore, resolution: &ConnectResolution) -> (r: AppResult<()>)
    requires
        old(plants).wf(),
    ensures
        final(plants).wf(),
        !resolution.plant_changed ==> r is Ok && final(plants)@ == old(plants)@,
        resolution.plant_changed ==> match spec_plant_replace(old(plants)@, resolution.plant@.id, resolution.plant@) {
            Ok(next) => r is Ok && final(plants)@ == next,
            Err(e) => r matches Err(x) && x@ == e && final(plants)@ == old(plants)@,
        },
{
    if resolution.plant_changed {
        plants.replace(resolution.plant.id.as_str(), resolution.plant.clone())
    } else {
        Ok(())
    }
}

/// A variable as the runtime receives it; the numbers are bit patterns of
/// floating-point values.
#[derive(Debug)]
pub struct DriverBootstrapVariable {
    pub id: String,
    pub name: String,
    pub var_type: VariableType,
    pub unit: String,
    pub setpoint: u64,
    pub pv_min: u64,
    pub pv_max: u64,
    pub linked_sensor_ids: Vec<String>,
}

/// The linked sensors of a variable; none when it names none.
pub open spec fn linked_or_empty(ids: Option<Seq<Seq<char>>>) -> Seq<Seq<char>> {
    match ids {
        Some(v) => v,
        None => Seq::empty(),
    }
}

/// Whether `b` is the variable `v` as the runtime receives it.
pub open spec fn variable_payload_of(b: DriverBootstrapVariable, v: VariableView) -> bool {
    &&& b.id@ == v.id
    &&& b.name@ == v.name
    &&& b.var_type == v.var_type
    &&& b.unit@ == v.unit
    &&& b.setpoint == v.setpoint
    &&& b.pv_min == v.pv_min
    &&& b.pv_max == v.pv_max
    &&& b.linked_sensor_ids.deep_view() == linked_or_empty(v.linked_sensor_ids)
}

impl DriverBootstrapVariable {
    /// The variable as the runtime receives it.
    pub fn from_variable(variable: &PlantVariable) -> (r: DriverBootstrapVariable)
        ensures
            variable_payload_of(r, variable.deep_view()),
    {
        let linked = match &variable.linked_sensor_ids {
            Some(ids) => {
                let c = ids.clone();
                assert(c.deep_view() =~= ids.deep_view());
                c
            },
            None => {
                let c: Vec<String> = Vec::new();
                assert(c.deep_view() =~= Seq::<Seq<char>>::empty());
                c
            },
        };
        DriverBootstrapVariable {
            id: variable.id.clone(),
            name: variable.name.clone(),
            var_type: variable.var_type,
            unit: variable.unit.clone(),
            setpoint: variable.setpoint,
            pv_min: variable.pv_min,
            pv_max: variable.pv_max,
            linked_sensor_ids: linked,
        }
    }
}

/// The plant as the runtime receives it: its variables, the ids of its sensors
/// and of its actuators, in order, and the setpoints by variable id.
#[derive(Debug)]
pub struct DriverBootstrapPlant {
    pub id: String,
    pub name: String,
    pub variables: Vec<DriverBootstrapVariable>,
    pub sensor_ids: Vec<String>,
    pub actuator_ids: Vec<String>,
    pub setpoints: Vec<Keyed<u64>>,
}

/// How the runtime keeps time.
#[derive(Debug)]
pub struct DriverBootstrapRuntimeTiming {
    pub owner: String,
    pub clock: String,
    pub strategy: String,
    pub sample_time_ms: u64,
}

/// Who supervises the runtime, and its time limits.
#[derive(Debug)]
pub struct DriverBootstrapRuntimeSupervision {
    pub owner: String,
    pub startup_timeout_ms: u64,
    pub shutdown_timeout_ms: u64,
}

/// The places of the runtime's files, as path components.
#[derive(Debug)]
pub struct DriverBootstrapRuntimePaths {
    pub runtime_dir: Vec<String>,
    pub venv_python_path: Vec<String>,
    pub runner_path: Vec<String>,
    pub bootstrap_path: Vec<String>,
}

/// The runtime's own part of the payload.
#[derive(Debug)]
pub struct DriverBootstrapRuntime {
    pub id: String,
    pub timing: DriverBootstrapRuntimeTiming,
    pub supervision: DriverBootstrapRuntimeSupervision,
    pub paths: DriverBootstrapRuntimePaths,
}

/// The driver as the runtime loads it.
#[derive(Debug)]
pub struct DriverBootstrapDriver {
    pub plugin_id: String,
    pub plugin_name: String,
    pub plugin_dir: Vec<String>,
    pub source_file: String,
    pub class_name: String,
    pub config: Vec<ConfigEntry>,
}

/// An active controller as the runtime loads it.
#[derive(Debug)]
pub struct DriverBootstrapController {
    pub id: String,
    pub plugin_id: String,
    pub plugin_name: String,
    pub plugin_dir: Vec<String>,
    pub source_file: String,
    pub class_name: String,
    pub name: String,
    pub controller_type: String,
    pub active: bool,
    pub input_variable_ids: Vec<String>,
    pub output_variable_ids: Vec<String>,
    pub params: Vec<ParamEntry>,
}

/// Everything the runtime of a plant starts from.
#[derive(Debug)]
pub struct DriverBootstrapPayload {
    pub driver: DriverBootstrapDriver,
    pub controllers: Vec<DriverBootstrapController>,
    pub plant: DriverBootstrapPlant,
    pub runtime: DriverBootstrapRuntime,
}

/// The source file of a plugin: its own, else `main.py`.
pub open spec fn source_file_or_main(f: Option<Seq<char>>) -> Seq<char> {
    match f {
        Some(x) => x,
        None => "main.py"@,
    }
}

/// The source file of a plugin: its own, else `main.py`.
pub fn source_file_of(plugin: &PluginRegistry) -> (r: String)
    ensures
        r@ == source_file_or_main(plugin@.source_file),
{
    match &plugin.source_file {
        Some(f) => f.clone(),
        None => String::from_str("main.py"),
    }
}

/// Whether `b` is the resolved controller `c` as the runtime loads it.
pub open spec fn controller_payload_of(b: DriverBootstrapController, c: ResolvedRuntimeController) -> bool {
    &&& b.id@ == c.instance.id@
    &&& b.plugin_id@ == c.plugin.id@
    &&& b.plugin_name@ == c.plugin.name@
    &&& b.plugin_dir.deep_view() == c.plugin_dir.deep_view()
    &&& b.source_file@ == source_file_or_main(c.plugin@.source_file)
    &&& b.class_name@ == c.plugin.entry_class@
    &&& b.name@ == c.instance.name@
    &&& b.controller_type@ == c.instance.controller_type@
    &&& b.active == c.instance.active
    &&& b.input_variable_ids.deep_view() == c.instance.input_variable_ids.deep_view()
    &&& b.output_variable_ids.deep_view() == c.instance.output_variable_ids.deep_view()
    &&& b.params.deep_view() == c.instance.params.deep_view()
}

/// The active controllers as the runtime loads them, in order.
pub fn build_runtime_controller_payloads(active_controllers: &Vec<ResolvedRuntimeController>) -> (r: Vec<DriverBootstrapController>)
    ensures
        r.len() == active_controllers.len(),
        forall|i: int| 0 <= i < r.len() ==> controller_payload_of(#[trigger] r@[i], active_controllers@[i]),
{
    let mut out: Vec<DriverBootstrapController> = Vec::new();
    let mut i: usize = 0;
    while i < active_controllers.len()
        invariant
            i <= active_controllers.len(),
            out.len() == i,
            forall|k: int| 0 <= k < i ==> controller_payload_of(#[trigger] out@[k], active_controllers@[k]),
        decreases active_controllers.len() - i,
    {
        let c = &active_controllers[i];
        let dir = c.plugin_dir.clone();
        let inputs = c.instance.input_variable_ids.clone();
        let outputs = c.instance.output_variable_ids.clone();
        let params = c.instance.params.clone();
        assert(dir.deep_view() =~= c.plugin_dir.deep_view());
        assert(inputs.deep_view() =~= c.instance.input_variable_ids.deep_view());
        assert(outputs.deep_view() =~= c.instance.output_variable_ids.deep_view());
        assert(params.deep_view() =~= c.instance.params.deep_view());
        let b = DriverBootstrapController {
            id: c.instance.id.clone(),
            plugin_id: c.plugin.id.clone(),
            plugin_name: c.plugin.name.clone(),
            plugin_dir: dir,
            source_file: source_file_of(&c.plugin),
            class_name: c.plugin.entry_class.clone(),
            name: c.instance.name.clone(),
            controller_type: c.instance.controller_type.clone(),
            active: c.instance.active,
            input_variable_ids: inputs,
            output_variable_ids: outputs,
            params,
        };
        out.push(b);
        i += 1;
    }
    out
}

/// The ids, in order, of the variables of kind `t`.
pub open spec fn ids_of_type(vs: Seq<VariableView>, t: VariableType) -> Seq<Seq<char>>
    decreases vs.len(),
{
    if vs.len() == 0 {
        Seq::empty()
    } else {
        let prev = ids_of_type(vs.drop_last(), t);
        if vs.last().var_type == t {
            prev.push(vs.last().id)
        } else {
            prev
        }
    }
}

/// Whether `b` is the plant `p` as the runtime receives it.
pub open spec fn plant_payload_of(b: DriverBootstrapPlant, p: PlantView) -> bool {
    &&& b.id@ == p.id
    &&& b.name@ == p.name
    &&& b.variables.len() == p.variables.len()
    &&& forall|i: int| 0 <= i < b.variables.len() ==> variable_payload_of(#[trigger] b.variables@[i], p.variables[i])
    &&& b.sensor_ids.deep_view() == ids_of_type(p.variables, VariableType::Sensor)
    &&& b.actuator_ids.deep_view() == ids_of_type(p.variables, VariableType::Atuador)
    &&& b.setpoints.deep_view() == runtime_setpoints(p.variables)
}

/// The plant as the runtime receives it.
pub fn build_bootstrap_plant(plant: &Plant) -> (r: DriverBootstrapPlant)
    ensures
        plant_payload_of(r, plant@),
{
    let ghost vs = plant@.variables;
    let mut variables: Vec<DriverBootstrapVariable> = Vec::new();
    let mut sensor_ids: Vec<String> = Vec::new();
    let mut actuator_ids: Vec<String> = Vec::new();
    let mut i: usize = 0;
    assert(vs.take(0) =~= Seq::<VariableView>::empty());
    assert(sensor_ids.deep_view() =~= Seq::<Seq<char>>::empty());
    assert(actuator_ids.deep_view() =~= Seq::<Seq<char>>::empty());
    while i < plant.variables.len()
        invariant
            i <= plant.variables.len(),
            vs == plant@.variables,
            variables.len() == i,
            forall|k: int| 0 <= k < i ==> variable_payload_of(#[trigger] variables@[k], vs[k]),
            sensor_ids.deep_view() == ids_of_type(vs.take(i as int), VariableType::Sensor),
            actuator_ids.deep_view() == ids_of_type(vs.take(i as int), VariableType::Atuador),
        decreases plant.variables.len() - i,
    {
        let v = &plant.variables[i];
        assert(vs[i as int] == v.deep_view());
        assert(vs.take(i + 1).drop_last() =~= vs.take(i as int));
        assert(vs.take(i + 1).last() == v.deep_view());
        variables.push(DriverBootstrapVariable::from_variable(v));
        match v.var_type {
            VariableType::Sensor => {
                let ghost before = sensor_ids.deep_view();
                sensor_ids.push(v.id.clone());
                assert(sensor_ids.deep_view() =~= before.push(v.id@));
            },
            VariableType::Atuador => {
                let ghost before = actuator_ids.deep_view();
                actuator_ids.push(v.id.clone());
                assert(actuator_ids.deep_view() =~= before.push(v.id@));
            },
        }
        i += 1;
    }
    assert(vs.take(plant.variables.len() as int) =~= vs);
    DriverBootstrapPlant {
        id: plant.id.clone(),
        name: plant.name.clone(),
        variables,
        sensor_ids,
        actuator_ids,
        setpoints: collect_runtime_setpoints(plant),
    }
}

/// Whether `b` is the payload that starts runtime `runtime_id` of `plant` with
/// `driver` from `driver_dir` and the resolved active controllers, at the given
/// paths and with the given time limits.
pub open spec fn bootstrap_payload_of(
    b: DriverBootstrapPayload,
    runtime_id: Seq<char>,
    plant: PlantView,
    driver: PluginView,
    driver_dir: Seq<Seq<char>>,
    active: Seq<ResolvedRuntimeController>,
    paths: Seq<Seq<Seq<char>>>,
    startup_timeout_ms: u64,
    shutdown_timeout_ms: u64,
) -> bool {
    &&& b.driver.plugin_id@ == driver.id
    &&& b.driver.plugin_name@ == driver.name
    &&& b.driver.plugin_dir.deep_view() == driver_dir
    &&& b.driver.source_file@ == source_file_or_main(driver.source_file)
    &&& b.driver.class_name@ == driver.entry_class
    &&& b.driver.config.deep_view() == plant.driver.config
    &&& b.controllers.len() == active.len()
    &&& forall|i: int| 0 <= i < active.len() ==> controller_payload_of(#[trigger] b.controllers@[i], active[i])
    &&& plant_payload_of(b.plant, plant)
    &&& b.runtime.id@ == runtime_id
    &&& b.runtime.timing.owner@ == "runtime"@
    &&& b.runtime.timing.clock@ == "monotonic"@
    &&& b.runtime.timing.strategy@ == "deadline"@
    &&& b.runtime.timing.sample_time_ms == plant.sample_time_ms
    &&& b.runtime.supervision.owner@ == "rust"@
    &&& b.runtime.supervision.startup_timeout_ms == startup_timeout_ms
    &&& b.runtime.supervision.shutdown_timeout_ms == shutdown_timeout_ms
    &&& paths.len() == 4
    &&& b.runtime.paths.runtime_dir.deep_view() == paths[0]
    &&& b.runtime.paths.venv_python_path.deep_view() == paths[1]
    &&& b.runtime.paths.runner_path.deep_view() == paths[2]
    &&& b.runtime.paths.bootstrap_path.deep_view() == paths[3]
}

/// The payload that starts runtime `runtime_id` of `plant`.
pub fn build_bootstrap_payload(
    runtime_id: &str,
    plant: &Plant,
    driver_plugin: &PluginRegistry,
    driver_dir: Vec<String>,
    active_controllers: &Vec<ResolvedRuntimeController>,
    runtime_dir: Vec<String>,
    venv_python_path: Vec<String>,
    runner_path: Vec<String>,
    bootstrap_path: Vec<String>,
    startup_timeout_ms: u64,
    shutdown_timeout_ms: u64,
) -> (r: DriverBootstrapPayload)
    ensures
        bootstrap_payload_of(r, runtime_id@, plant@, driver_plugin@, driver_dir.deep_view(), active_controllers@,
            seq![runtime_dir.deep_view(), venv_python_path.deep_view(), runner_path.deep_view(), bootstrap_path.deep_view()],
            startup_timeout_ms, shutdown_timeout_ms),
{
    let config = plant.driver.config.clone();
    assert(config.deep_view() =~= plant.driver.config.deep_view());
    let ghost dd = driver_dir.deep_view();
    let ghost ps = seq![runtime_dir.deep_view(), venv_python_path.deep_view(), runner_path.deep_view(), bootstrap_path.deep_view()];
    let r = DriverBootstrapPayload {
        driver: DriverBootstrapDriver {
            plugin_id: driver_plugin.id.clone(),
            plugin_name: driver_plugin.name.clone(),
            plugin_dir: driver_dir,
            source_file: source_file_of(driver_plugin),
            class_name: driver_plugin.entry_class.clone(),
            config,
        },
        controllers: build_runtime_controller_payloads(active_controllers),
        plant: build_bootstrap_plant(plant),
        runtime: DriverBootstrapRuntime {
            id: String::from_str(runtime_id),
            timing: DriverBootstrapRuntimeTiming {
                owner: String::from_str("runtime"),
                clock: String::from_str("monotonic"),
                strategy: String::from_str("deadline"),
                sample_time_ms: plant.sample_time_ms,
            },
            supervision: DriverBootstrapRuntimeSupervision {
                owner: String::from_str("rust"),
                startup_timeout_ms,
                shutdown_timeout_ms,
            },
            paths: DriverBootstrapRuntimePaths { runtime_dir, venv_python_path, runner_path, bootstrap_path },
        },
    };
    assert(ps[0] == r.runtime.paths.runtime_dir.deep_view());
    r
}

} // verus!
