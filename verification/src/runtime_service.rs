//! The decisions of the driver runtime of a plant: what a change of a running
//! plant's controllers must have checked, how controllers are marked, and the
//! state changes of connecting, pausing and resuming.
use vstd::prelude::*;
use crate::error::{AppError, AppResult, ErrorView, concat5, invalid_argument};
use crate::keyed::{Keyed, has_key, last_wins, upsert, distinct_keys};
use crate::models::{
    ControllerRuntimeStatus, ControllerView, Plant, PlantController, PlantView, SavePlantControllerConfigRequest,
    VariableView,
};
use crate::plant_service::PlantService;
use crate::plant_store::{PlantStore, plant_not_found, spec_plant_remove, spec_plant_update};
use crate::error::{concat2, concat3};
use crate::ids::{lower_hex_digit, random_uuid_simple};
use crate::models::{PluginRegistry, PluginRuntime, PluginType, PluginView};
use crate::runtime_bootstrap::{controller_not_python, driver_not_python, source_file_of, source_file_or_main};
use crate::workspace::{CONTROLLERS_DIR, WorkspaceService, documents_missing, entity_path_result, plugin_dir_name, workspace_component, workspace_entry};

verus! {

broadcast use vstd::std_specs::vec::group_vec_axioms;

/// Which active controllers must be loaded again to check that the running
/// environment can run them after a change of a controller.
#[derive(Debug, PartialEq, Eq)]
pub enum RuntimeControllerValidationPlan {
    /// No check is needed.
    Unneeded,
    /// Only the controller with this id.
    Targeted(String),
    /// All of them.
    All,
}

/// The view of a [`RuntimeControllerValidationPlan`].
pub enum PlanView {
    Unneeded,
    Targeted(Seq<char>),
    All,
}

impl View for RuntimeControllerValidationPlan {
    type V = PlanView;

    open spec fn view(&self) -> PlanView {
        match self {
            RuntimeControllerValidationPlan::Unneeded => PlanView::Unneeded,
            RuntimeControllerValidationPlan::Targeted(id) => PlanView::Targeted(id@),
            RuntimeControllerValidationPlan::All => PlanView::All,
        }
    }
}

/// Whether some controller is active and not in step with the running runtime.
pub open spec fn some_active_pending(cs: Seq<ControllerView>) -> bool {
    exists|i: int| 0 <= i < cs.len() && (#[trigger] cs[i]).active && cs[i].runtime_status != ControllerRuntimeStatus::Synced
}

/// The checks a save of controller `controller_id`, leaving it active or not,
/// calls for on a plant: none when the plant is not connected; all when some
/// active controller is pending; else the saved one, when it becomes active and
/// was not already running in step.
pub open spec fn validation_plan(p: PlantView, existing: Option<ControllerView>, active: bool, controller_id: Seq<char>) -> PlanView {
    if !p.connected {
        PlanView::Unneeded
    } else if some_active_pending(p.controllers) {
        PlanView::All
    } else {
        let running = match existing {
            Some(c) => c.active && c.runtime_status == ControllerRuntimeStatus::Synced,
            None => false,
        };
        if active && !running {
            PlanView::Targeted(controller_id)
        } else {
            PlanView::Unneeded
        }
    }
}

/// Whether some controller of the plant is active and pending.
pub fn has_active_pending_controller(controllers: &Vec<PlantController>) -> (r: bool)
    ensures
        r == some_active_pending(controllers.deep_view()),
{
    let mut i: usize = 0;
    while i < controllers.len()
        invariant
            i <= controllers.len(),
            forall|k: int| 0 <= k < i ==> !((#[trigger] controllers.deep_view()[k]).active
                && controllers.deep_view()[k].runtime_status != ControllerRuntimeStatus::Synced),
        decreases controllers.len() - i,
    {
        let c = &controllers[i];
        assert(controllers.deep_view()[i as int] == c.deep_view());
        if c.active && c.runtime_status != ControllerRuntimeStatus::Synced {
            return true;
        }
        i += 1;
    }
    false
}

/// The checks a save calls for on a plant.
pub fn plan_runtime_controller_validation(
    plant: &Plant,
    existing_controller: Option<&PlantController>,
    request: &SavePlantControllerConfigRequest,
) -> (r: RuntimeControllerValidationPlan)
    ensures
        r@ == validation_plan(plant@, match existing_controller { Some(c) => Some(c.deep_view()), None => None },
            request.active, request.controller_id@),
{
    if !plant.connected {
        return RuntimeControllerValidationPlan::Unneeded;
    }
    if has_active_pending_controller(&plant.controllers) {
        return RuntimeControllerValidationPlan::All;
    }
    let running = match existing_controller {
        Some(c) => c.active && c.runtime_status == ControllerRuntimeStatus::Synced,
        None => false,
    };
    if request.active && !running {
        RuntimeControllerValidationPlan::Targeted(request.controller_id.clone())
    } else {
        RuntimeControllerValidationPlan::Unneeded
    }
}

/// Whether some controller is active.
pub open spec fn some_active(cs: Seq<ControllerView>) -> bool {
    exists|i: int| 0 <= i < cs.len() && (#[trigger] cs[i]).active
}

/// Whether some controller other than `id` is active.
pub open spec fn some_other_active(cs: Seq<ControllerView>, id: Seq<char>) -> bool {
    exists|i: int| 0 <= i < cs.len() && (#[trigger] cs[i]).id != id && cs[i].active
}

/// Whether the driver must be checked for writing outputs before a save: the
/// save activates a controller in a plant where none is active.
pub fn should_validate_driver_write_on_controller_save(plant: &Plant, request: &SavePlantControllerConfigRequest) -> (r: bool)
    ensures
        r == (request.active && !some_active(plant@.controllers)),
{
    if !request.active {
        return false;
    }
    let mut i: usize = 0;
    while i < plant.controllers.len()
        invariant
            i <= plant.controllers.len(),
            forall|k: int| 0 <= k < i ==> !(#[trigger] plant@.controllers[k]).active,
        decreases plant.controllers.len() - i,
    {
        assert(plant@.controllers[i as int] == plant.controllers@[i as int].deep_view());
        if plant.controllers[i].active {
            return false;
        }
        i += 1;
    }
    true
}

/// Whether the plant will have an active controller after the save.
pub fn will_have_active_controllers(plant: &Plant, request: &SavePlantControllerConfigRequest) -> (r: bool)
    ensures
        r == (some_other_active(plant@.controllers, request.controller_id@) || request.active),
{
    let mut i: usize = 0;
    while i < plant.controllers.len()
        invariant
            i <= plant.controllers.len(),
            forall|k: int| 0 <= k < i ==> !((#[trigger] plant@.controllers[k]).id != request.controller_id@ && plant@.controllers[k].active),
        decreases plant.controllers.len() - i,
    {
        let c = &plant.controllers[i];
        assert(plant@.controllers[i as int] == c.deep_view());
        if !(c.id == request.controller_id) && c.active {
            return true;
        }
        i += 1;
    }
    request.active
}

/// Which of the running controllers a plan asks to check.
pub open spec fn plan_targets(plan: PlanView, ids: Seq<Seq<char>>) -> Seq<bool> {
    Seq::new(ids.len(), |i: int| match plan {
        PlanView::Unneeded => false,
        PlanView::Targeted(t) => ids[i] == t,
        PlanView::All => true,
    })
}

/// Which of the running controllers (by id, in order) a plan asks to check.
pub fn validation_targets(plan: &RuntimeControllerValidationPlan, ids: &Vec<String>) -> (r: Vec<bool>)
    ensures
        r@ == plan_targets(plan@, ids.deep_view()),
{
    let mut out: Vec<bool> = Vec::new();
    let mut i: usize = 0;
    while i < ids.len()
        invariant
            i <= ids.len(),
            out@ == plan_targets(plan@, ids.deep_view()).take(i as int),
        decreases ids.len() - i,
    {
        let t = match plan {
            RuntimeControllerValidationPlan::Unneeded => false,
            RuntimeControllerValidationPlan::Targeted(target) => ids[i] == *target,
            RuntimeControllerValidationPlan::All => true,
        };
        out.push(t);
        assert(out@ =~= plan_targets(plan@, ids.deep_view()).take(i + 1));
        i += 1;
    }
    assert(plan_targets(plan@, ids.deep_view()).take(ids.len() as int) =~= plan_targets(plan@, ids.deep_view()));
    out
}

/// The ids, in order, of the checked controllers that the running environment
/// cannot run: all checked ones when it is not known which environment runs
/// them, else those whose check failed.
pub open spec fn incompatible_ids(ids: Seq<Seq<char>>, checked: Seq<bool>, environment_known: bool, failed: Seq<bool>) -> Seq<Seq<char>>
    decreases ids.len(),
{
    if ids.len() == 0 {
        Seq::empty()
    } else {
        let n = ids.len() - 1;
        let prev = incompatible_ids(ids.drop_last(), checked.take(n), environment_known, failed.take(n));
        if checked[n] && (!environment_known || failed[n]) {
            prev.push(ids[n])
        } else {
            prev
        }
    }
}

/// The ids of the checked controllers that the running environment cannot run.
pub fn collect_incompatible_controller_ids(
    ids: &Vec<String>,
    checked: &Vec<bool>,
    environment_known: bool,
    failed: &Vec<bool>,
) -> (r: Vec<String>)
    requires
        checked.len() == ids.len(),
        failed.len() == ids.len(),
    ensures
        r.deep_view() == incompatible_ids(ids.deep_view(), checked@, environment_known, failed@),
{
    let ghost is = ids.deep_view();
    let mut out: Vec<String> = Vec::new();
    let mut i: usize = 0;
    assert(is.take(0) =~= Seq::<Seq<char>>::empty());
    assert(out.deep_view() =~= Seq::<Seq<char>>::empty());
    while i < ids.len()
        invariant
            i <= ids.len(),
            checked.len() == ids.len(),
            failed.len() == ids.len(),
            is == ids.deep_view(),
            out.deep_view() == incompatible_ids(is.take(i as int), checked@.take(i as int), environment_known, failed@.take(i as int)),
        decreases ids.len() - i,
    {
        assert(is.take(i + 1).drop_last() =~= is.take(i as int));
        assert(checked@.take(i + 1).take(i as int) =~= checked@.take(i as int));
        assert(failed@.take(i + 1).take(i as int) =~= failed@.take(i as int));
        if checked[i] && (!environment_known || failed[i]) {
            let ghost before = out.deep_view();
            out.push(ids[i].clone());
            assert(out.deep_view() =~= before.push(is[i as int]));
        }
        i += 1;
    }
    assert(is.take(ids.len() as int) =~= is);
    assert(checked@.take(ids.len() as int) =~= checked@);
    assert(failed@.take(ids.len() as int) =~= failed@);
    out
}

/// The controllers, each with the status `status`.
/// The next step of a plant's running environment after a controller check.
#[derive(Debug, PartialEq, Eq, Structural, Clone, Copy)]
pub enum ControllerSyncStep {
    /// Send the runtime the new list of controllers.
    UpdateRuntime,
    /// Leave the runtime as it is.
    KeepRuntime,
}

/// The controllers after a check found `incompatible` ones: all in step when
/// there are none, else those marked pending.
pub open spec fn synced_after_check(cs: Seq<ControllerView>, incompatible: Seq<Seq<char>>) -> Seq<ControllerView> {
    if incompatible.len() == 0 {
        with_status(cs, ControllerRuntimeStatus::Synced)
    } else {
        with_pending(cs, incompatible)
    }
}

pub open spec fn with_status(cs: Seq<ControllerView>, status: ControllerRuntimeStatus) -> Seq<ControllerView> {
    cs.map_values(|c: ControllerView| ControllerView { runtime_status: status, ..c })
}

/// The controllers, an active one whose id is pending marked pending and every
/// other in step.
pub open spec fn with_pending(cs: Seq<ControllerView>, pending: Seq<Seq<char>>) -> Seq<ControllerView> {
    cs.map_values(|c: ControllerView| ControllerView {
        runtime_status: if c.active && pending.contains(c.id) {
            ControllerRuntimeStatus::PendingRestart
        } else {
            ControllerRuntimeStatus::Synced
        },
        ..c
    })
}

/// Whether `id` is among `ids`.
pub fn contains_id(ids: &Vec<String>, id: &String) -> (r: bool)
    ensures
        r == ids.deep_view().contains(id@),
{
    let mut i: usize = 0;
    while i < ids.len()
        invariant
            i <= ids.len(),
            forall|k: int| 0 <= k < i ==> ids.deep_view()[k] != id@,
        decreases ids.len() - i,
    {
        if ids[i] == *id {
            assert(ids.deep_view()[i as int] == id@);
            return true;
        }
        i += 1;
    }
    false
}

/// The controllers, each with the status `status`.
pub fn controllers_with_status(cs: &Vec<PlantController>, status: ControllerRuntimeStatus) -> (r: Vec<PlantController>)
    ensures
        r.deep_view() == with_status(cs.deep_view(), status),
{
    let mut out: Vec<PlantController> = Vec::new();
    let mut i: usize = 0;
    while i < cs.len()
        invariant
            i <= cs.len(),
            out.len() == i,
            forall|k: int| 0 <= k < i ==> (#[trigger] out.deep_view()[k]) == (ControllerView { runtime_status: status, ..cs.deep_view()[k] }),
        decreases cs.len() - i,
    {
        let mut c = cs[i].clone();
        c.runtime_status = status;
        let ghost before = out.deep_view();
        out.push(c);
        assert(out.deep_view() =~= before.push(ControllerView { runtime_status: status, ..cs.deep_view()[i as int] }));
        i += 1;
    }
    assert(out.deep_view() =~= with_status(cs.deep_view(), status));
    out
}

/// The controllers, those pending marked so.
pub fn controllers_with_pending(cs: &Vec<PlantController>, pending: &Vec<String>) -> (r: Vec<PlantController>)
    ensures
        r.deep_view() == with_pending(cs.deep_view(), pending.deep_view()),
{
    let mut out: Vec<PlantController> = Vec::new();
    let mut i: usize = 0;
    while i < cs.len()
        invariant
            i <= cs.len(),
            out.len() == i,
            forall|k: int| 0 <= k < i ==> (#[trigger] out.deep_view()[k]) == (ControllerView {
                runtime_status: if cs.deep_view()[k].active && pending.deep_view().contains(cs.deep_view()[k].id) {
                    ControllerRuntimeStatus::PendingRestart
                } else {
                    ControllerRuntimeStatus::Synced
                },
                ..cs.deep_view()[k]
            }),
        decreases cs.len() - i,
    {
        let mut c = cs[i].clone();
        let is_pending = c.active && contains_id(pending, &c.id);
        c.runtime_status = if is_pending { ControllerRuntimeStatus::PendingRestart } else { ControllerRuntimeStatus::Synced };
        let ghost before = out.deep_view();
        let ghost cv = c.deep_view();
        out.push(c);
        assert(out.deep_view() =~= before.push(cv));
        i += 1;
    }
    assert(out.deep_view() =~= with_pending(cs.deep_view(), pending.deep_view()));
    out
}

/// Why a controller cannot be removed from a plant, if it cannot: it is not
/// there, or it runs in step in a connected plant.
pub open spec fn removal_error(p: PlantView, controller_id: Seq<char>) -> Option<ErrorView> {
    match crate::controller_config::controller_position(p.controllers, controller_id) {
        None => Some(ErrorView::NotFound("Controlador '"@ + controller_id + "' não encontrado na planta '"@ + p.name + "'"@)),
        Some(i) => if p.connected && p.controllers[i].active && p.controllers[i].runtime_status == ControllerRuntimeStatus::Synced {
            Some(ErrorView::InvalidArgument("Não é permitido remover um controlador em execução. Desative-o antes."@))
        } else {
            None
        },
    }
}

/// The driver runtime service: the plant-side decisions of running plants.
pub struct DriverRuntimeService;

impl DriverRuntimeService {
    /// Checks that controller `controller_id` can be removed from `plant`.
    pub fn check_controller_removal(plant: &Plant, controller_id: &String) -> (r: AppResult<()>)
        ensures
            match removal_error(plant@, controller_id@) {
                Some(e) => r matches Err(x) && x@ == e,
                None => r is Ok,
            },
    {
        match crate::controller_config::position_of_controller(&plant.controllers, controller_id) {
            None => Err(AppError::NotFound(concat5("Controlador '", controller_id.as_str(),
                "' não encontrado na planta '", plant.name.as_str(), "'"))),
            Some(i) => {
                assert(plant@.controllers[i as int] == plant.controllers@[i as int].deep_view());
                let c = &plant.controllers[i];
                if plant.connected && c.active && c.runtime_status == ControllerRuntimeStatus::Synced {
                    Err(invalid_argument("Não é permitido remover um controlador em execução. Desative-o antes."))
                } else {
                    Ok(())
                }
            },
        }
    }

    /// Marks every controller of plant `plant_id` with `status`.
    pub fn set_all_controller_runtime_statuses(store: &mut PlantStore, plant_id: &str, status: ControllerRuntimeStatus) -> (r: AppResult<Plant>)
        requires
            old(store).wf(),
        ensures
            final(store).wf(),
            !has_key(old(store)@.entries, plant_id@) ==> (r matches Err(e) && e@ == plant_not_found(plant_id@)) && final(store)@ == old(store)@,
            has_key(old(store)@.entries, plant_id@) ==> {
                let p = old(store)@.plants()[plant_id@];
                let next = PlantView { controllers: with_status(p.controllers, status), ..p };
                (r matches Ok(x) && x@ == next) && final(store)@ == spec_plant_update(old(store)@, plant_id@, next).0
            },
    {
        let plant = store.get(plant_id)?;
        let mut updated = plant;
        let cs = controllers_with_status(&updated.controllers, status);
        updated.controllers = cs;
        let ghost target = updated@;
        store.update(plant_id, move |_current: Plant| -> (next: Plant)
            ensures
                next@ == target,
            {
                updated
            })
    }

    /// Marks the active controllers of plant `plant_id` whose ids are in
    /// `pending_ids` as pending, and every other controller as in step.
    pub fn set_pending_controller_runtime_statuses(store: &mut PlantStore, plant_id: &str, pending_ids: &Vec<String>) -> (r: AppResult<Plant>)
        requires
            old(store).wf(),
        ensures
            final(store).wf(),
            !has_key(old(store)@.entries, plant_id@) ==> (r matches Err(e) && e@ == plant_not_found(plant_id@)) && final(store)@ == old(store)@,
            has_key(old(store)@.entries, plant_id@) ==> {
                let p = old(store)@.plants()[plant_id@];
                let next = PlantView { controllers: with_pending(p.controllers, pending_ids.deep_view()), ..p };
                (r matches Ok(x) && x@ == next) && final(store)@ == spec_plant_update(old(store)@, plant_id@, next).0
            },
    {
        let plant = store.get(plant_id)?;
        let mut updated = plant;
        let cs = controllers_with_pending(&updated.controllers, pending_ids);
        updated.controllers = cs;
        let ghost target = updated@;
        store.update(plant_id, move |_current: Plant| -> (next: Plant)
            ensures
                next@ == target,
            {
                updated
            })
    }

    /// What a running plant needs after its controllers were checked against
    /// the running environment: when none is incompatible, the runtime gets the
    /// new list of controllers; else it is left as it is.
    pub fn controller_sync_step(incompatible: &Vec<String>) -> (r: ControllerSyncStep)
        ensures
            (r == ControllerSyncStep::UpdateRuntime) == (incompatible@.len() == 0),
    {
        if incompatible.len() == 0 {
            ControllerSyncStep::UpdateRuntime
        } else {
            ControllerSyncStep::KeepRuntime
        }
    }

    /// Records the outcome of a controller check on plant `plant_id`, once the
    /// runtime was updated when [`Self::controller_sync_step`] asked for it:
    /// with no incompatible controller every controller is in step; else the
    /// incompatible ones wait for a restart.
    pub fn finish_controller_sync(store: &mut PlantStore, plant_id: &str, incompatible: &Vec<String>) -> (r: AppResult<Plant>)
        requires
            old(store).wf(),
        ensures
            final(store).wf(),
            !has_key(old(store)@.entries, plant_id@) ==> (r matches Err(e) && e@ == plant_not_found(plant_id@)) && final(store)@ == old(store)@,
            has_key(old(store)@.entries, plant_id@) ==> {
                let p = old(store)@.plants()[plant_id@];
                let next = PlantView { controllers: synced_after_check(p.controllers, incompatible.deep_view()), ..p };
                (r matches Ok(x) && x@ == next) && final(store)@ == spec_plant_update(old(store)@, plant_id@, next).0
            },
    {
        if incompatible.len() == 0 {
            Self::set_all_controller_runtime_statuses(store, plant_id, ControllerRuntimeStatus::Synced)
        } else {
            Self::set_pending_controller_runtime_statuses(store, plant_id, incompatible)
        }
    }

    /// Marks plant `plant_id` as connected and running, every controller in step;
    /// refuses a plant that is connected already.
    pub fn mark_connected(store: &mut PlantStore, plant_id: &str) -> (r: AppResult<Plant>)
        requires
            old(store).wf(),
        ensures
            final(store).wf(),
            !has_key(old(store)@.entries, plant_id@) ==> (r matches Err(e) && e@ == plant_not_found(plant_id@)) && final(store)@ == old(store)@,
            has_key(old(store)@.entries, plant_id@) ==> {
                let p = old(store)@.plants()[plant_id@];
                if p.connected {
                    (r matches Err(e) && e@ == ErrorView::InvalidArgument("Planta já está conectada"@)) && final(store)@ == old(store)@
                } else {
                    let next = PlantView { connected: true, paused: false, controllers: with_status(p.controllers, ControllerRuntimeStatus::Synced), ..p };
                    (r matches Ok(x) && x@ == next) && final(store)@ == spec_plant_update(old(store)@, plant_id@, next).0
                }
            },
    {
        let plant = store.get(plant_id)?;
        if plant.connected {
            return Err(invalid_argument("Planta já está conectada"));
        }
        let mut updated = plant;
        updated.connected = true;
        updated.paused = false;
        let cs = controllers_with_status(&updated.controllers, ControllerRuntimeStatus::Synced);
        updated.controllers = cs;
        let ghost target = updated@;
        store.update(plant_id, move |_current: Plant| -> (next: Plant)
            ensures
                next@ == target,
            {
                updated
            })
    }

    /// Marks plant `plant_id` as disconnected and not paused.
    pub fn disconnect(store: &mut PlantStore, plant_id: &str) -> (r: AppResult<Plant>)
        requires
            old(store).wf(),
        ensures
            final(store).wf(),
            !has_key(old(store)@.entries, plant_id@) ==> (r matches Err(e) && e@ == plant_not_found(plant_id@)) && final(store)@ == old(store)@,
            has_key(old(store)@.entries, plant_id@) ==> {
                let p = old(store)@.plants()[plant_id@];
                let next = PlantView { connected: false, paused: false, ..p };
                (r matches Ok(x) && x@ == next) && final(store)@ == spec_plant_update(old(store)@, plant_id@, next).0
            },
    {
        let plant = store.get(plant_id)?;
        let mut updated = plant;
        updated.connected = false;
        updated.paused = false;
        let ghost target = updated@;
        store.update(plant_id, move |_current: Plant| -> (next: Plant)
            ensures
                next@ == target,
            {
                updated
            })
    }

    /// Pauses the display of plant `plant_id`: it must be connected; a paused plant stays as it is.
    pub fn pause(store: &mut PlantStore, plant_id: &str) -> (r: AppResult<Plant>)
        requires
            old(store).wf(),
        ensures
            final(store).wf(),
            !has_key(old(store)@.entries, plant_id@) ==> (r matches Err(e) && e@ == plant_not_found(plant_id@)) && final(store)@ == old(store)@,
            has_key(old(store)@.entries, plant_id@) ==> {
                let p = old(store)@.plants()[plant_id@];
                if !p.connected {
                    (r matches Err(e) && e@ == ErrorView::InvalidArgument("Planta precisa estar conectada para pausar"@)) && final(store)@ == old(store)@
                } else if p.paused {
                    (r matches Ok(x) && x@ == p) && final(store)@ == old(store)@
                } else {
                    let next = PlantView { paused: true, ..p };
                    (r matches Ok(x) && x@ == next) && final(store)@ == spec_plant_update(old(store)@, plant_id@, next).0
                }
            },
    {
        let plant = store.get(plant_id)?;
        if !plant.connected {
            return Err(invalid_argument("Planta precisa estar conectada para pausar"));
        }
        if plant.paused {
            return Ok(plant);
        }
        let mut updated = plant;
        updated.paused = true;
        let ghost target = updated@;
        store.update(plant_id, move |_current: Plant| -> (next: Plant)
            ensures
                next@ == target,
            {
                updated
            })
    }

    /// Resumes the display of plant `plant_id`: it must be connected; a running plant stays as it is.
    pub fn resume(store: &mut PlantStore, plant_id: &str) -> (r: AppResult<Plant>)
        requires
            old(store).wf(),
        ensures
            final(store).wf(),
            !has_key(old(store)@.entries, plant_id@) ==> (r matches Err(e) && e@ == plant_not_found(plant_id@)) && final(store)@ == old(store)@,
            has_key(old(store)@.entries, plant_id@) ==> {
                let p = old(store)@.plants()[plant_id@];
                if !p.connected {
                    (r matches Err(e) && e@ == ErrorView::InvalidArgument("Planta precisa estar conectada para retomar"@)) && final(store)@ == old(store)@
                } else if !p.paused {
                    (r matches Ok(x) && x@ == p) && final(store)@ == old(store)@
                } else {
                    let next = PlantView { paused: false, ..p };
                    (r matches Ok(x) && x@ == next) && final(store)@ == spec_plant_update(old(store)@, plant_id@, next).0
                }
            },
    {
        let plant = store.get(plant_id)?;
        if !plant.connected {
            return Err(invalid_argument("Planta precisa estar conectada para retomar"));
        }
        if !plant.paused {
            return Ok(plant);
        }
        let mut updated = plant;
        updated.paused = false;
        let ghost target = updated@;
        store.update(plant_id, move |_current: Plant| -> (next: Plant)
            ensures
                next@ == target,
            {
                updated
            })
    }

    /// Takes plant `plant_id` out of the store, as closing does, and returns it
    /// disconnected, not paused, every controller inactive.
    pub fn close(store: &mut PlantStore, plant_id: &str) -> (r: AppResult<Plant>)
        requires
            old(store).wf(),
        ensures
            final(store).wf(),
            match spec_plant_remove(old(store)@, plant_id@) {
                Ok((next, p)) => (r matches Ok(x) && x@ == PlantView { connected: false, paused: false, ..crate::plant_edits::deactivated(p) })
                    && final(store)@ == next,
                Err(e) => (r matches Err(x) && x@ == e) && final(store)@ == old(store)@,
            },
    {
        let mut plant = PlantService::close(store, plant_id)?;
        plant.connected = false;
        plant.paused = false;
        Ok(plant)
    }

    /// Removes plant `plant_id` from the store and returns it disconnected and not paused.
    pub fn remove(store: &mut PlantStore, plant_id: &str) -> (r: AppResult<Plant>)
        requires
            old(store).wf(),
        ensures
            final(store).wf(),
            match spec_plant_remove(old(store)@, plant_id@) {
                Ok((next, p)) => (r matches Ok(x) && x@ == PlantView { connected: false, paused: false, ..p }) && final(store)@ == next,
                Err(e) => (r matches Err(x) && x@ == e) && final(store)@ == old(store)@,
            },
    {
        let mut plant = PlantService::remove(store, plant_id)?;
        plant.connected = false;
        plant.paused = false;
        Ok(plant)
    }
}

/// The setpoints of a plant's variables, by variable id; a later variable with
/// the same id takes the place of an earlier one.
pub open spec fn runtime_setpoints(vs: Seq<VariableView>) -> Seq<(Seq<char>, u64)> {
    last_wins(vs.map_values(|v: VariableView| (v.id, v.setpoint)))
}

/// The setpoints of a plant's variables, by variable id.
pub fn collect_runtime_setpoints(plant: &Plant) -> (r: Vec<Keyed<u64>>)
    ensures
        r.deep_view() == runtime_setpoints(plant@.variables),
        distinct_keys(r.deep_view()),
{
    let ghost ins = plant@.variables.map_values(|v: VariableView| (v.id, v.setpoint));
    let mut out: Vec<Keyed<u64>> = Vec::new();
    let mut i: usize = 0;
    assert(ins.take(0) =~= Seq::<(Seq<char>, u64)>::empty());
    assert(out.deep_view() =~= Seq::<(Seq<char>, u64)>::empty());
    while i < plant.variables.len()
        invariant
            i <= plant.variables.len(),
            ins == plant@.variables.map_values(|v: VariableView| (v.id, v.setpoint)),
            out.deep_view() == last_wins(ins.take(i as int)),
            distinct_keys(out.deep_view()),
        decreases plant.variables.len() - i,
    {
        let v = &plant.variables[i];
        assert(ins.take(i + 1).drop_last() =~= ins.take(i as int));
        assert(ins.take(i + 1).last() == (v.id@, v.setpoint));
        upsert(&mut out, v.id.clone(), v.setpoint);
        i += 1;
    }
    assert(ins.take(plant.variables.len() as int) =~= ins);
    out
}

/// Why a runtime cannot start for a plant, if it cannot: the plant runs
/// already, or the plugin is not a driver, or not a Python one.
pub open spec fn start_error(already_running: bool, plant_id: Seq<char>, driver: PluginView) -> Option<ErrorView> {
    if already_running {
        Some(ErrorView::InvalidArgument("Planta '"@ + plant_id + "' já está em execução"@))
    } else if driver.plugin_type != PluginType::Driver {
        Some(ErrorView::InvalidArgument("Plugin selecionado não é um driver"@))
    } else if driver.runtime != PluginRuntime::Python {
        Some(ErrorView::InvalidArgument("A runtime de driver atual suporta apenas plugins Python"@))
    } else {
        None
    }
}

/// Checks that a runtime can start for plant `plant_id` with `driver_plugin`.
pub fn check_runtime_start(already_running: bool, plant_id: &str, driver_plugin: &PluginRegistry) -> (r: AppResult<()>)
    ensures
        match start_error(already_running, plant_id@, driver_plugin@) {
            Some(e) => r matches Err(x) && x@ == e,
            None => r is Ok,
        },
{
    if already_running {
        return Err(AppError::InvalidArgument(concat3("Planta '", plant_id, "' já está em execução")));
    }
    if driver_plugin.plugin_type != PluginType::Driver {
        return Err(invalid_argument("Plugin selecionado não é um driver"));
    }
    if driver_plugin.runtime != PluginRuntime::Python {
        return Err(invalid_argument("A runtime de driver atual suporta apenas plugins Python"));
    }
    Ok(())
}

/// A fresh runtime id: `rt_` and 32 lowercase hexadecimal digits of a random UUID.
pub fn new_runtime_id() -> (r: String)
    ensures
        r@.len() == 35,
        r@.take(3) == "rt_"@,
        forall|i: int| 3 <= i < 35 ==> lower_hex_digit(#[trigger] r@[i]),
{
    let uuid = random_uuid_simple();
    let r = concat2("rt_", uuid.as_str());
    proof {
        reveal_strlit("rt_");
    }
    assert(r@.take(3) =~= "rt_"@);
    assert forall|i: int| 3 <= i < 35 implies lower_hex_digit(#[trigger] r@[i]) by {
        assert(r@[i] == uuid@[i - 3]);
    }
    r
}

/// The source file of plugin `plugin`, of kind `plugin_type`, in its directory.
pub open spec fn source_path_result(r: AppResult<Vec<String>>, plugin: PluginView, plugin_type: PluginType) -> bool {
    match workspace_component(plugin.name, "plugin"@) {
        Ok(n) => match r {
            Ok(p) => p@.len() == 5 && workspace_entry(p@.take(4), plugin_dir_name(plugin_type), n)
                && p@[4]@ == source_file_or_main(plugin.source_file),
            Err(e) => e@ == documents_missing(),
        },
        Err(err) => match r {
            Ok(_) => false,
            Err(e) => e@ == documents_missing() || e@ == err,
        },
    }
}

/// The source file of a plugin in its directory.
pub fn resolve_plugin_source_path(plugin: &PluginRegistry, plugin_type: PluginType) -> (r: AppResult<Vec<String>>)
    ensures
        source_path_result(r, plugin@, plugin_type),
{
    let mut dir = WorkspaceService::plugin_directory(plugin.name.as_str(), plugin_type)?;
    let ghost d = dir@;
    dir.push(source_file_of(plugin));
    assert(dir@.take(4) =~= d);
    Ok(dir)
}

/// The source file of a driver to check for a `write` method: refused when the
/// driver is not Python.
pub fn driver_write_source_path(driver_plugin: &PluginRegistry) -> (r: AppResult<Vec<String>>)
    ensures
        driver_plugin@.runtime != PluginRuntime::Python ==> (r matches Err(e) && e@ == driver_not_python()),
        driver_plugin@.runtime == PluginRuntime::Python ==> source_path_result(r, driver_plugin@, PluginType::Driver),
{
    if driver_plugin.runtime != PluginRuntime::Python {
        return Err(invalid_argument("A runtime atual suporta apenas drivers Python"));
    }
    resolve_plugin_source_path(driver_plugin, PluginType::Driver)
}

/// The directory and source file of a controller's plugin to check before it
/// runs: refused when the plugin is not Python.
pub fn runtime_controller_paths(controller_plugin: &PluginRegistry, controller_name: &str) -> (r: AppResult<(Vec<String>, Vec<String>)>)
    ensures
        controller_plugin@.runtime != PluginRuntime::Python ==> (r matches Err(e) && e@ == controller_not_python(controller_name@)),
        controller_plugin@.runtime == PluginRuntime::Python ==> match r {
            Ok((dir, source)) => entity_path_result(Ok(dir), controller_plugin@.name, "plugin"@, CONTROLLERS_DIR@)
                && source_path_result(Ok(source), controller_plugin@, PluginType::Controller),
            Err(e) => entity_path_result(Err(e), controller_plugin@.name, "plugin"@, CONTROLLERS_DIR@),
        },
{
    if controller_plugin.runtime != PluginRuntime::Python {
        return Err(AppError::InvalidArgument(concat3("O controlador '", controller_name,
            "' precisa ser Python para executar na runtime atual")));
    }
    let dir = WorkspaceService::plugin_directory(controller_plugin.name.as_str(), PluginType::Controller)?;
    match resolve_plugin_source_path(controller_plugin, PluginType::Controller) {
        Ok(source) => Ok((dir, source)),
        Err(e) => {
            assert(e@ == documents_missing());
            Err(e)
        },
    }
}

impl DriverRuntimeService {
    /// The plant `plant_id` to connect: it must exist and not be connected.
    pub fn begin_connect(store: &PlantStore, plant_id: &str) -> (r: AppResult<Plant>)
        requires
            store.wf(),
        ensures
            !has_key(store@.entries, plant_id@) ==> (r matches Err(e) && e@ == plant_not_found(plant_id@)),
            has_key(store@.entries, plant_id@) ==> {
                let p = store@.plants()[plant_id@];
                if p.connected {
                    r matches Err(e) && e@ == ErrorView::InvalidArgument("Planta já está conectada"@)
                } else {
                    r matches Ok(x) && x@ == p
                }
            },
    {
        let plant = store.get(plant_id)?;
        if plant.connected {
            return Err(invalid_argument("Planta já está conectada"));
        }
        Ok(plant)
    }
}

/// Whether a save of a controller calls for checking that the driver can write
/// outputs: the plant will have an active controller, and the save activates
/// one where none is active.
pub fn needs_driver_write_check(plant: &Plant, request: &SavePlantControllerConfigRequest) -> (r: bool)
    ensures
        r == ((some_other_active(plant@.controllers, request.controller_id@) || request.active)
            && request.active && !some_active(plant@.controllers)),
{
    will_have_active_controllers(plant, request) && should_validate_driver_write_on_controller_save(plant, request)
}

/// The driver a lookup found for `plant`, or the error that it has none.
pub fn require_driver(found: Option<PluginRegistry>, plant: &Plant) -> (r: AppResult<PluginRegistry>)
    ensures
        match found {
            Some(d) => r matches Ok(x) && x@ == d@,
            None => r matches Err(e) && e@ == crate::runtime_bootstrap::driver_not_found(plant@.name),
        },
{
    match found {
        Some(d) => Ok(d),
        None => Err(AppError::NotFound(concat3("Driver da planta '", plant.name.as_str(), "' não foi encontrado"))),
    }
}

} // verus!
