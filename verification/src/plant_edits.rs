//! Removing a controller from a plant, editing a setpoint and closing a plant.
use vstd::prelude::*;
use crate::error::{AppError, AppResult, ErrorView, concat5, invalid_argument};
use crate::first::{first_some, lemma_first_some_at, lemma_first_some_none};
use crate::float_bits::{f64_lt, lt_bits};
use crate::keyed::has_key;
use crate::models::{
    ControllerView, Plant, PlantController, PlantVariable, PlantView, RemovePlantControllerRequest,
    SavePlantSetpointRequest, VariableType, VariableView,
};
use crate::plant_service::PlantService;
use crate::plant_store::{PlantStore, PlantStoreView, plant_not_found, spec_plant_remove, spec_plant_update};

verus! {

broadcast use vstd::std_specs::vec::group_vec_axioms;

/// The controllers left when those whose id is `id` are taken out, in order.
pub open spec fn retained_controllers(cs: Seq<ControllerView>, id: Seq<char>) -> Seq<ControllerView>
    decreases cs.len(),
{
    if cs.len() == 0 {
        Seq::empty()
    } else {
        let prev = retained_controllers(cs.drop_last(), id);
        if cs.last().id != id {
            prev.push(cs.last())
        } else {
            prev
        }
    }
}

/// The controllers of `controllers` whose id is not `id`, in order.
pub fn without_controller(controllers: &Vec<PlantController>, id: &String) -> (r: Vec<PlantController>)
    ensures
        r.deep_view() == retained_controllers(controllers.deep_view(), id@),
{
    let ghost cs = controllers.deep_view();
    let mut out: Vec<PlantController> = Vec::new();
    let mut i: usize = 0;
    assert(cs.take(0) =~= Seq::<ControllerView>::empty());
    while i < controllers.len()
        invariant
            i <= controllers.len(),
            cs == controllers.deep_view(),
            out.deep_view() == retained_controllers(cs.take(i as int), id@),
        decreases controllers.len() - i,
    {
        assert(cs.take(i + 1).drop_last() =~= cs.take(i as int));
        assert(cs.take(i + 1).last() == cs[i as int]);
        if !(controllers[i].id == *id) {
            let ghost before = out.deep_view();
            out.push(controllers[i].clone());
            assert(out.deep_view() =~= before.push(cs[i as int]));
        }
        i += 1;
    }
    assert(cs.take(controllers.len() as int) =~= cs);
    out
}

/// What removing controller `controller_id` from plant `plant_id` gives.
pub open spec fn controller_removal_outcome(s: PlantStoreView, plant_id: Seq<char>, controller_id: Seq<char>) -> Result<PlantView, ErrorView> {
    if !has_key(s.entries, plant_id) {
        Err(plant_not_found(plant_id))
    } else {
        let plant = s.plants()[plant_id];
        if !(exists|i: int| 0 <= i < plant.controllers.len() && #[trigger] plant.controllers[i].id == controller_id) {
            Err(ErrorView::NotFound("Controlador '"@ + controller_id + "' não encontrado na planta '"@ + plant.name + "'"@))
        } else {
            Ok(PlantView { controllers: retained_controllers(plant.controllers, controller_id), ..plant })
        }
    }
}

/// The position of the first variable whose id is `id`, if any.
pub open spec fn variable_position(vs: Seq<VariableView>, id: Seq<char>) -> Option<int> {
    first_some(Seq::new(vs.len(), |i: int| if vs[i].id == id { Some(i) } else { None }))
}

/// The position of the first variable whose id is `id`, if any.
pub fn position_of_variable(variables: &Vec<PlantVariable>, id: &String) -> (r: Option<usize>)
    ensures
        match r {
            Some(i) => i < variables.len() && variable_position(variables.deep_view(), id@) == Some(i as int),
            None => variable_position(variables.deep_view(), id@) is None,
        },
{
    let ghost vs = variables.deep_view();
    let ghost hits = Seq::new(vs.len(), |i: int| if vs[i].id == id@ { Some(i) } else { None });
    let mut i: usize = 0;
    while i < variables.len()
        invariant
            i <= variables.len(),
            vs == variables.deep_view(),
            hits == Seq::new(vs.len(), |i: int| if vs[i].id == id@ { Some(i) } else { None }),
            forall|j: int| 0 <= j < i ==> (#[trigger] hits[j]) is None,
        decreases variables.len() - i,
    {
        if variables[i].id == *id {
            proof { lemma_first_some_at(hits, i as int); }
            return Some(i);
        }
        i += 1;
    }
    proof { lemma_first_some_none(hits); }
    None
}

/// What setting the setpoint of variable `variable_id` of plant `plant_id` to
/// `setpoint` gives: only a sensor's setpoint can be set, and only within its range.
pub open spec fn setpoint_outcome(s: PlantStoreView, plant_id: Seq<char>, variable_id: Seq<char>, setpoint: u64) -> Result<PlantView, ErrorView> {
    if !has_key(s.entries, plant_id) {
        Err(plant_not_found(plant_id))
    } else {
        let plant = s.plants()[plant_id];
        match variable_position(plant.variables, variable_id) {
            None => Err(ErrorView::NotFound("Variável '"@ + variable_id + "' não encontrada na planta '"@ + plant.name + "'"@)),
            Some(i) => {
                let v = plant.variables[i];
                if v.var_type != VariableType::Sensor {
                    Err(ErrorView::InvalidArgument("Apenas sensores podem ter setpoint editado"@))
                } else if f64_lt(setpoint, v.pv_min) || f64_lt(v.pv_max, setpoint) {
                    Err(ErrorView::InvalidArgument("Setpoint deve estar entre pv_min e pv_max"@))
                } else {
                    Ok(PlantView { variables: plant.variables.update(i, VariableView { setpoint, ..v }), ..plant })
                }
            },
        }
    }
}

/// A plant with every controller inactive.
pub open spec fn deactivated(p: PlantView) -> PlantView {
    PlantView {
        controllers: p.controllers.map_values(|c: ControllerView| ControllerView { active: false, ..c }),
        ..p
    }
}

/// The controllers, each made inactive.
pub fn deactivate_all(controllers: &Vec<PlantController>) -> (r: Vec<PlantController>)
    ensures
        r.deep_view() == controllers.deep_view().map_values(|c: ControllerView| ControllerView { active: false, ..c }),
{
    let ghost cs = controllers.deep_view();
    let mut out: Vec<PlantController> = Vec::new();
    let mut i: usize = 0;
    while i < controllers.len()
        invariant
            i <= controllers.len(),
            cs == controllers.deep_view(),
            out.len() == i,
            forall|k: int| 0 <= k < i ==> (#[trigger] out.deep_view()[k]) == (ControllerView { active: false, ..cs[k] }),
        decreases controllers.len() - i,
    {
        let mut c = controllers[i].clone();
        c.active = false;
        let ghost before = out.deep_view();
        out.push(c);
        assert(out.deep_view() =~= before.push(ControllerView { active: false, ..cs[i as int] }));
        i += 1;
    }
    assert(out.deep_view() =~= cs.map_values(|c: ControllerView| ControllerView { active: false, ..c }));
    out
}

impl PlantService {
    /// Removes controller `request.controller_id` from plant `request.plant_id`.
    pub fn remove_controller(store: &mut PlantStore, request: RemovePlantControllerRequest) -> (r: AppResult<Plant>)
        requires
            old(store).wf(),
        ensures
            final(store).wf(),
            match controller_removal_outcome(old(store)@, request.plant_id@, request.controller_id@) {
                Ok(p) => (r matches Ok(x) && x@ == p) && final(store)@ == spec_plant_update(old(store)@, request.plant_id@, p).0,
                Err(e) => (r matches Err(x) && x@ == e) && final(store)@ == old(store)@,
            },
    {
        let plant = store.get(request.plant_id.as_str())?;
        let mut found = false;
        let mut i: usize = 0;
        while i < plant.controllers.len()
            invariant
                i <= plant.controllers.len(),
                found == exists|j: int| 0 <= j < i && #[trigger] plant.controllers.deep_view()[j].id == request.controller_id@,
            decreases plant.controllers.len() - i,
        {
            assert(plant.controllers.deep_view()[i as int].id == plant.controllers@[i as int].id@);
            if plant.controllers[i].id == request.controller_id {
                found = true;
            }
            i += 1;
        }
        if !found {
            return Err(AppError::NotFound(concat5("Controlador '", request.controller_id.as_str(),
                "' não encontrado na planta '", plant.name.as_str(), "'")));
        }
        let mut updated = plant;
        let kept = without_controller(&updated.controllers, &request.controller_id);
        updated.controllers = kept;
        let ghost target = updated@;
        store.update(request.plant_id.as_str(), move |_current: Plant| -> (next: Plant)
            ensures
                next@ == target,
            {
                updated
            })
    }

    /// Sets the setpoint of sensor `request.variable_id` of plant `request.plant_id`.
    pub fn save_setpoint(store: &mut PlantStore, request: SavePlantSetpointRequest) -> (r: AppResult<Plant>)
        requires
            old(store).wf(),
        ensures
            final(store).wf(),
            match setpoint_outcome(old(store)@, request.plant_id@, request.variable_id@, request.setpoint) {
                Ok(p) => (r matches Ok(x) && x@ == p) && final(store)@ == spec_plant_update(old(store)@, request.plant_id@, p).0,
                Err(e) => (r matches Err(x) && x@ == e) && final(store)@ == old(store)@,
            },
    {
        let plant = store.get(request.plant_id.as_str())?;
        let i = match position_of_variable(&plant.variables, &request.variable_id) {
            Some(i) => i,
            None => return Err(AppError::NotFound(concat5("Variável '", request.variable_id.as_str(),
                "' não encontrada na planta '", plant.name.as_str(), "'"))),
        };
        let var = &plant.variables[i];
        if var.var_type != VariableType::Sensor {
            return Err(invalid_argument("Apenas sensores podem ter setpoint editado"));
        }
        if lt_bits(request.setpoint, var.pv_min) || lt_bits(var.pv_max, request.setpoint) {
            return Err(invalid_argument("Setpoint deve estar entre pv_min e pv_max"));
        }
        let mut updated = plant;
        let mut v = updated.variables[i].clone();
        v.setpoint = request.setpoint;
        let ghost vs0 = updated.variables.deep_view();
        updated.variables.set(i, v);
        assert(updated.variables.deep_view() =~= vs0.update(i as int, VariableView { setpoint: request.setpoint, ..vs0[i as int] }));
        let ghost target = updated@;
        store.update(request.plant_id.as_str(), move |_current: Plant| -> (next: Plant)
            ensures
                next@ == target,
            {
                updated
            })
    }

    /// Takes plant `id` out of the store and returns it with every controller
    /// inactive, as it is kept on disk.
    pub fn close(store: &mut PlantStore, id: &str) -> (r: AppResult<Plant>)
        requires
            old(store).wf(),
        ensures
            final(store).wf(),
            match spec_plant_remove(old(store)@, id@) {
                Ok((next, p)) => (r matches Ok(x) && x@ == deactivated(p)) && final(store)@ == next,
                Err(e) => (r matches Err(x) && x@ == e) && final(store)@ == old(store)@,
            },
    {
        let mut plant = store.remove(id)?;
        let controllers = deactivate_all(&plant.controllers);
        plant.controllers = controllers;
        Ok(plant)
    }
}

} // verus!
