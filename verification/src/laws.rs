//! What holds of the library as a whole, over the specifications that its
//! operations meet: what a read of the stores gives back after a write, what
//! each store keeps true, what undoes what, and what running plants keep.
use vstd::prelude::*;
use crate::first::{collect_results, first_some, lemma_first_some_found, lemma_first_some_none_all};
use crate::import_service::{controller_request_results};
use crate::json::JsonView;
use crate::keyed::{as_map, distinct_keys, has_key, index_of_key, lemma_index_of_key, lemma_push, lemma_remove, lemma_update};
use crate::controller_config::{
    collected_params, controller_position, controller_save_outcome, plant_after_save, plant_variable_types,
};
use crate::controller_params::filled_params;
use crate::float_bits::f64_lt;
use crate::plant_edits::{controller_removal_outcome, retained_controllers, setpoint_outcome, variable_position};
use crate::plant_import::registry_variable;
use crate::json::{as_f64, as_object, member_of};
use crate::models::{
    ControllerParamView, ControllerRequestView, ControllerView, PlantView, PluginRuntime, PluginType, PluginView, CreatePlantVariableRequest,
    SavePlantControllerConfigRequest, VariableType, VariableView,
};
use crate::runtime_bootstrap::{ConnectView, RunView, StepView, connect_run, controller_step, lemma_step_advances};
use crate::plant_service::built_variables;
use crate::plant_store::{PlantStoreView, plant_store_consistent, spec_plant_insert, spec_plant_remove, spec_plant_replace, spec_plant_update};
use crate::plant_validation::{
    controller_error, controller_errors, indexed_controller_error, input_error, lemma_var_label_injective, payload_error,
    spec_resolve_plugin, var_label, var_type_at, variable_types,
};
use crate::plugin_store::{PluginStoreView, plugin_store_consistent, spec_plugin_insert, spec_plugin_remove};
use crate::python_errors::{last_useful, lines_of, nonblank_trimmed, python_error_detail};
use crate::runtime_bootstrap::has_plugin_id;
use crate::runtime_environment::{
    FNV_OFFSET, all_dependencies, deduped, env_hash_of, env_material, fnv_fold, lemma_hex_digits, lemma_pairs_sorted_unique,
    lemma_plugin_lines_keys, lower_hex, pairs_sorted, utf8,
};
use crate::runtime_monitor::{HandshakeState, RuntimeMetrics, RuntimeSession, StdoutEvent, StdoutOutcome, handshake_check, report_effect};
use crate::text::name_key_of;
use crate::workspace::{special_component, workspace_component};

verus! {

/// After a plant is stored, reading it back by its id gives that plant, and
/// every other plant reads as before.
pub proof fn law_plant_insert_then_get(s: PlantStoreView, p: PlantView)
    requires
        distinct_keys(s.entries),
        spec_plant_insert(s, p) is Ok,
    ensures
        match spec_plant_insert(s, p) {
            Ok(next) => distinct_keys(next.entries) && has_key(next.entries, p.id) && next.plants()[p.id] == p
                && next.plants() == s.plants().insert(p.id, p),
            Err(_) => false,
        },
{
    lemma_push(s.entries, p.id, p);
    let t = s.entries.push((p.id, p));
    assert(t[s.entries.len() as int].0 == p.id);
}

/// Removing a plant just stored gives that plant back and the store as it was.
pub proof fn law_plant_remove_undoes_insert(s: PlantStoreView, p: PlantView)
    requires
        distinct_keys(s.entries),
        spec_plant_insert(s, p) is Ok,
    ensures
        match spec_plant_insert(s, p) {
            Ok(next) => spec_plant_remove(next, p.id) == Ok::<(PlantStoreView, PlantView), crate::error::ErrorView>((s, p)),
            Err(_) => false,
        },
{
    let t = s.entries.push((p.id, p));
    lemma_push(s.entries, p.id, p);
    lemma_index_of_key(t, s.entries.len() as int);
    assert(t.remove(s.entries.len() as int) =~= s.entries);
    let key = name_key_of(p.name);
    assert(s.names.insert(key, p.id).remove(key) =~= s.names);
}

/// In a consistent store no two plants have names that differ only in case or
/// in surrounding whitespace.
pub proof fn law_plant_names_unique(s: PlantStoreView)
    requires
        distinct_keys(s.entries),
        plant_store_consistent(s),
    ensures
        forall|i: int, j: int| 0 <= i < s.entries.len() && 0 <= j < s.entries.len() && i != j
            ==> name_key_of(#[trigger] s.entries[i].1.name) != name_key_of(#[trigger] s.entries[j].1.name),
{
    assert forall|i: int, j: int| 0 <= i < s.entries.len() && 0 <= j < s.entries.len() && i != j
        implies name_key_of(#[trigger] s.entries[i].1.name) != name_key_of(#[trigger] s.entries[j].1.name) by {
        if name_key_of(s.entries[i].1.name) == name_key_of(s.entries[j].1.name) {
            assert(s.entries[i].0 != s.entries[j].0);
        }
    }
}

/// Storing a plant keeps a store consistent: the name index holds exactly the
/// names of the plants, each under its plant's id.
pub proof fn law_plant_insert_keeps_consistency(s: PlantStoreView, p: PlantView)
    requires
        distinct_keys(s.entries),
        plant_store_consistent(s),
        spec_plant_insert(s, p) is Ok,
    ensures
        match spec_plant_insert(s, p) {
            Ok(next) => plant_store_consistent(next),
            Err(_) => false,
        },
{
    let next = spec_plant_insert(s, p)->Ok_0;
    let key = name_key_of(p.name);
    lemma_push(s.entries, p.id, p);
    assert forall|i: int| #![trigger next.entries[i]] 0 <= i < next.entries.len()
        implies next.names.contains_key(name_key_of(next.entries[i].1.name))
            && next.names[name_key_of(next.entries[i].1.name)] == next.entries[i].0 by {
        if i < s.entries.len() {
            assert(next.entries[i] == s.entries[i]);
            assert(s.names.contains_key(name_key_of(s.entries[i].1.name)));
        }
    }
    assert forall|k: Seq<char>| #[trigger] next.names.contains_key(k) implies has_key(next.entries, next.names[k])
        && name_key_of(next.plants()[next.names[k]].name) == k by {
        if k != key {
            assert(s.names.contains_key(k));
            let id = s.names[k];
            assert(next.names[k] == id);
            let i = choose|i: int| 0 <= i < s.entries.len() && #[trigger] s.entries[i].0 == id;
            assert(next.entries[i].0 == id);
            assert(id != p.id);
            assert(next.plants()[id] == s.plants()[id]);
        } else {
            assert(next.names[k] == p.id);
            assert(next.entries[s.entries.len() as int].0 == p.id);
            assert(next.plants()[p.id] == p);
        }
    }
}

/// Removing a plant keeps a store consistent.
pub proof fn law_plant_remove_keeps_consistency(s: PlantStoreView, id: Seq<char>)
    requires
        distinct_keys(s.entries),
        plant_store_consistent(s),
        spec_plant_remove(s, id) is Ok,
    ensures
        match spec_plant_remove(s, id) {
            Ok((next, _)) => plant_store_consistent(next),
            Err(_) => false,
        },
{
    let i = index_of_key(s.entries, id);
    let next = spec_plant_remove(s, id)->Ok_0.0;
    let key = name_key_of(s.entries[i].1.name);
    lemma_index_of_key(s.entries, i);
    lemma_remove(s.entries, i);
    law_plant_names_unique(s);
    assert forall|a: int| #![trigger next.entries[a]] 0 <= a < next.entries.len()
        implies next.names.contains_key(name_key_of(next.entries[a].1.name))
            && next.names[name_key_of(next.entries[a].1.name)] == next.entries[a].0 by {
        let a2 = if a < i { a } else { a + 1 };
        assert(next.entries[a] == s.entries[a2]);
        assert(s.names.contains_key(name_key_of(s.entries[a2].1.name)));
    }
    assert forall|k: Seq<char>| #[trigger] next.names.contains_key(k) implies has_key(next.entries, next.names[k])
        && name_key_of(next.plants()[next.names[k]].name) == k by {
        assert(k != key);
        assert(s.names.contains_key(k));
        let pid = s.names[k];
        assert(next.names[k] == pid);
        assert(has_key(s.entries, pid));
        let b = choose|b: int| 0 <= b < s.entries.len() && #[trigger] s.entries[b].0 == pid;
        lemma_index_of_key(s.entries, b);
        assert(b != i);
        assert(pid != id);
        let b2 = if b < i { b } else { b - 1 };
        assert(next.entries[b2] == s.entries[b]);
        assert(next.plants()[pid] == s.plants()[pid]);
    }
}

/// Pausing a running plant and then resuming it gives back the store as it was:
/// pausing only changes what the plant shows.
pub proof fn law_pause_then_resume_restores(s: PlantStoreView, id: Seq<char>)
    requires
        distinct_keys(s.entries),
        has_key(s.entries, id),
        s.plants()[id].connected,
        !s.plants()[id].paused,
    ensures
        ({
            let p = s.plants()[id];
            let paused = PlantView { paused: true, ..p };
            let (s1, r1) = spec_plant_update(s, id, paused);
            &&& r1 == Ok::<PlantView, crate::error::ErrorView>(paused)
            &&& s1.plants()[id] == paused
            &&& spec_plant_update(s1, id, PlantView { paused: false, ..s1.plants()[id] }) == (s, Ok::<PlantView, crate::error::ErrorView>(p))
        }),
{
    let i = index_of_key(s.entries, id);
    let k = choose|k: int| 0 <= k < s.entries.len() && #[trigger] s.entries[k].0 == id;
    lemma_index_of_key(s.entries, k);
    let p = s.plants()[id];
    assert(s.entries[i] == (id, p));
    let paused = PlantView { paused: true, ..p };
    let s1 = spec_plant_update(s, id, paused).0;
    lemma_update(s.entries, i, paused);
    assert(s1.entries[i].0 == id);
    lemma_index_of_key(s1.entries, i);
    assert(s1.plants()[id] == paused);
    let s2 = spec_plant_update(s1, id, PlantView { paused: false, ..paused }).0;
    assert(PlantView { paused: false, ..paused } == p);
    assert(s2.entries =~= s.entries);
    assert(s2.names == s.names);
}

/// After a plugin is stored, reading it back by its id gives that plugin, and
/// every other plugin reads as before.
pub proof fn law_plugin_insert_then_get(s: PluginStoreView, p: PluginView)
    requires
        distinct_keys(s.entries),
        spec_plugin_insert(s, p) is Ok,
    ensures
        match spec_plugin_insert(s, p) {
            Ok(next) => distinct_keys(next.entries) && has_key(next.entries, p.id) && next.registries()[p.id] == p
                && next.registries() == s.registries().insert(p.id, p),
            Err(_) => false,
        },
{
    lemma_push(s.entries, p.id, p);
    let t = s.entries.push((p.id, p));
    assert(t[s.entries.len() as int].0 == p.id);
}

/// Removing a plugin just stored gives that plugin back and the store as it was.
pub proof fn law_plugin_remove_undoes_insert(s: PluginStoreView, p: PluginView)
    requires
        distinct_keys(s.entries),
        spec_plugin_insert(s, p) is Ok,
    ensures
        match spec_plugin_insert(s, p) {
            Ok(next) => spec_plugin_remove(next, p.id) == Ok::<(PluginStoreView, PluginView), crate::error::ErrorView>((s, p)),
            Err(_) => false,
        },
{
    let t = s.entries.push((p.id, p));
    lemma_push(s.entries, p.id, p);
    lemma_index_of_key(t, s.entries.len() as int);
    assert(t.remove(s.entries.len() as int) =~= s.entries);
    let key = name_key_of(p.name);
    assert(s.names.insert(key, p.id).remove(key) =~= s.names);
}

/// In a consistent store no two plugins have names that differ only in case or
/// in surrounding whitespace.
pub proof fn law_plugin_names_unique(s: PluginStoreView)
    requires
        distinct_keys(s.entries),
        plugin_store_consistent(s),
    ensures
        forall|i: int, j: int| 0 <= i < s.entries.len() && 0 <= j < s.entries.len() && i != j
            ==> name_key_of(#[trigger] s.entries[i].1.name) != name_key_of(#[trigger] s.entries[j].1.name),
{
    assert forall|i: int, j: int| 0 <= i < s.entries.len() && 0 <= j < s.entries.len() && i != j
        implies name_key_of(#[trigger] s.entries[i].1.name) != name_key_of(#[trigger] s.entries[j].1.name) by {
        if name_key_of(s.entries[i].1.name) == name_key_of(s.entries[j].1.name) {
            assert(s.entries[i].0 != s.entries[j].0);
        }
    }
}

/// The variables of a new plant have distinct ids.
pub proof fn law_variable_ids_distinct(vs: Seq<CreatePlantVariableRequest>)
    ensures
        forall|i: int, j: int| 0 <= i < vs.len() && 0 <= j < vs.len() && i != j
            ==> (#[trigger] built_variables(vs)[i]).id != (#[trigger] built_variables(vs)[j]).id,
{
    assert forall|i: int, j: int| 0 <= i < vs.len() && 0 <= j < vs.len() && i != j
        implies (#[trigger] built_variables(vs)[i]).id != (#[trigger] built_variables(vs)[j]).id by {
        if var_label(i) == var_label(j) {
            lemma_var_label_injective(i, j);
        }
    }
}

/// A directory name accepted for an entity is not empty, has no separator and
/// is neither `.` nor `..`: it stays inside its parent directory.
pub proof fn law_safe_component_stays_inside(name: Seq<char>, entity: Seq<char>)
    ensures
        workspace_component(name, entity) matches Ok(n) ==> n.len() > 0 && !n.contains('/') && !n.contains('\\')
            && !special_component(n) && n[0] != '/',
{
}

/// Every controller an imported plant brings starts inactive.
pub proof fn law_imported_controllers_inactive(plugins: PluginStoreView, cs: Seq<crate::plant_import::ImportedControllerView>)
    ensures
        forall|i: int| 0 <= i < cs.len() ==> (#[trigger] controller_request_results(plugins, cs)[i] matches Ok(r) ==> !r.active),
{
}

/// The detail of a failed Python check is the fallback only when the output
/// holds no line that is not blank; else it is one of those lines.
pub proof fn law_python_detail_from_output(stderr: Seq<char>, stdout: Seq<char>, fallback: Seq<char>)
    ensures
        ({
            let ls = nonblank_trimmed(lines_of(stderr) + lines_of(stdout));
            &&& ls.len() == 0 ==> python_error_detail(stderr, stdout, fallback) == fallback
            &&& ls.len() > 0 ==> ls.contains(python_error_detail(stderr, stdout, fallback))
        }),
{
    let ls = nonblank_trimmed(lines_of(stderr) + lines_of(stdout));
    lemma_last_useful_in(ls);
    if ls.len() > 0 {
        assert(ls[ls.len() - 1] == ls.last());
    }
}

proof fn lemma_last_useful_in(ls: Seq<Seq<char>>)
    ensures
        last_useful(ls) matches Some(l) ==> ls.contains(l),
    decreases ls.len(),
{
    if ls.len() > 0 {
        lemma_last_useful_in(ls.drop_last());
        if let Some(l) = last_useful(ls.drop_last()) {
            let k = choose|k: int| 0 <= k < ls.drop_last().len() && ls.drop_last()[k] == l;
            assert(ls[k] == l);
        }
        assert(ls[ls.len() - 1] == ls.last());
    }
}

/// The plugins a runtime needs, each id once: no id comes twice, and every id
/// of the plugins given is kept.
pub proof fn law_deduped_plugins(ps: Seq<PluginView>)
    ensures
        forall|i: int, j: int| 0 <= i < j < deduped(ps).len() ==> (#[trigger] deduped(ps)[i]).id != (#[trigger] deduped(ps)[j]).id,
        forall|id: Seq<char>| has_plugin_id(ps, id) <==> has_plugin_id(deduped(ps), id),
        forall|i: int| 0 <= i < deduped(ps).len() ==> ps.contains(#[trigger] deduped(ps)[i]),
    decreases ps.len(),
{
    if ps.len() > 0 {
        let q = ps.drop_last();
        law_deduped_plugins(q);
        let prev = deduped(q);
        let x = ps.last();
        assert forall|id: Seq<char>| has_plugin_id(ps, id) <==> has_plugin_id(deduped(ps), id) by {
            if has_plugin_id(ps, id) {
                let k = choose|k: int| 0 <= k < ps.len() && (#[trigger] ps[k]).id == id;
                if k < q.len() {
                    assert(q[k] == ps[k]);
                    assert(has_plugin_id(q, id));
                    let m = choose|m: int| 0 <= m < prev.len() && (#[trigger] prev[m]).id == id;
                    assert(deduped(ps)[m] == prev[m]);
                } else if !has_plugin_id(prev, x.id) {
                    assert(deduped(ps)[prev.len() as int] == x);
                }
            }
            if has_plugin_id(deduped(ps), id) {
                let m = choose|m: int| 0 <= m < deduped(ps).len() && (#[trigger] deduped(ps)[m]).id == id;
                if m < prev.len() {
                    assert(deduped(ps)[m] == prev[m]);
                    assert(has_plugin_id(prev, id));
                    let k = choose|k: int| 0 <= k < q.len() && (#[trigger] q[k]).id == id;
                    assert(ps[k] == q[k]);
                } else {
                    assert(ps[ps.len() - 1] == x);
                }
            }
        }
        assert forall|i: int| 0 <= i < deduped(ps).len() implies ps.contains(#[trigger] deduped(ps)[i]) by {
            if i < prev.len() {
                assert(deduped(ps)[i] == prev[i]);
                let k = choose|k: int| 0 <= k < q.len() && q[k] == prev[i];
                assert(ps[k] == q[k]);
            } else {
                assert(ps[ps.len() - 1] == x);
            }
        }
        assert forall|i: int, j: int| 0 <= i < j < deduped(ps).len() implies (#[trigger] deduped(ps)[i]).id != (#[trigger] deduped(ps)[j]).id by {
            if j < prev.len() {
                assert(deduped(ps)[i] == prev[i] && deduped(ps)[j] == prev[j]);
            } else {
                assert(deduped(ps)[j] == x);
                assert(deduped(ps)[i] == prev[i]);
            }
        }
    }
}

/// The name of an environment is 16 lower-case hexadecimal digits, and it
/// depends only on the ids and entry classes of its plugins, in order, and on
/// the set of their dependencies: two lists of plugins with the same ids and
/// entry classes in the same order, and the same dependencies (whatever their
/// order, their repeats and the plugin that lists them), name the same
/// environment; any other field of a plugin does not count.
pub proof fn law_env_hash_depends_on_plugin_keys_and_dependencies(
    ps: Seq<PluginView>,
    qs: Seq<PluginView>,
    ds1: Seq<(Seq<char>, Seq<char>)>,
    ds2: Seq<(Seq<char>, Seq<char>)>,
)
    requires
        pairs_sorted(ds1),
        pairs_sorted(ds2),
        forall|t: (Seq<char>, Seq<char>)| ds1.contains(t) <==> all_dependencies(ps).contains(t),
        forall|t: (Seq<char>, Seq<char>)| ds2.contains(t) <==> all_dependencies(qs).contains(t),
        ps.len() == qs.len(),
        forall|i: int| 0 <= i < ps.len() ==> (#[trigger] ps[i]).id == qs[i].id && ps[i].entry_class == qs[i].entry_class,
        forall|t: (Seq<char>, Seq<char>)| all_dependencies(ps).contains(t) <==> all_dependencies(qs).contains(t),
    ensures
        env_hash_of(ps, ds1) == env_hash_of(qs, ds2),
        env_hash_of(ps, ds1).len() == 16,
        lower_hex(env_hash_of(ps, ds1)),
{
    lemma_pairs_sorted_unique(ds1, ds2);
    lemma_plugin_lines_keys(ps, qs);
    assert(env_material(ps, ds1) == env_material(qs, ds2));
    lemma_hex_digits(fnv_fold(FNV_OFFSET, utf8(env_material(ps, ds1))) as nat, 16);
}

/// The count of late cycles of a runtime never goes down, whatever it reports.
pub proof fn law_late_cycles_never_decrease(
    m0: RuntimeMetrics,
    h0: HandshakeState,
    s: RuntimeSession,
    e: StdoutEvent,
    now: u64,
    m: RuntimeMetrics,
    h: HandshakeState,
    o: StdoutOutcome,
)
    requires
        report_effect(m0, h0, s, e, now, m, h, o),
    ensures
        m.late_cycle_count >= m0.late_cycle_count,
{
}

/// Once the driver has connected, no report takes the handshake back, and
/// waiting for it is over.
pub proof fn law_connected_handshake_stays(
    m0: RuntimeMetrics,
    h0: HandshakeState,
    s: RuntimeSession,
    e: StdoutEvent,
    now: u64,
    m: RuntimeMetrics,
    h: HandshakeState,
    o: StdoutOutcome,
    deadline_reached: bool,
)
    requires
        report_effect(m0, h0, s, e, now, m, h, o),
        h0.connected,
    ensures
        h.connected,
        handshake_check(h, deadline_reached) == Some(Ok::<(), crate::error::ErrorView>(())),
{
}

/// Whether every resolved controller is active and runs on a Python plugin.
pub open spec fn all_active_python(cs: Seq<(ControllerView, PluginView)>) -> bool {
    forall|i: int| 0 <= i < cs.len() ==> (#[trigger] cs[i]).0.active && cs[i].1.runtime == PluginRuntime::Python
}

/// Whether two lists of controllers have the same ids in the same order.
pub open spec fn same_controller_ids(a: Seq<ControllerView>, b: Seq<ControllerView>) -> bool {
    a.len() == b.len() && forall|i: int| 0 <= i < a.len() ==> (#[trigger] a[i]).id == b[i].id
}

/// A resolution of a plant's plugins hands the runtime only active controllers
/// on Python plugins, and keeps the plant's controllers, in number and in order
/// of ids.
pub proof fn law_resolution_runs_only_active_python(s: PluginStoreView, v: ConnectView, loaded: bool)
    requires
        all_active_python(v.active),
        0 <= v.next,
    ensures
        match connect_run(s, v, loaded) {
            RunView::Done(w) => all_active_python(w.active) && same_controller_ids(w.plant.controllers, v.plant.controllers),
            RunView::Load(w) => all_active_python(w.active) && same_controller_ids(w.plant.controllers, v.plant.controllers),
            RunView::Fail(_) => true,
        },
    decreases v.plant.controllers.len() - v.next,
{
    if v.next < v.plant.controllers.len() {
        lemma_step_advances(s, v, loaded);
        match controller_step(s, v, loaded) {
            StepView::Next(w) => {
                assert(all_active_python(w.active)) by {
                    assert forall|i: int| 0 <= i < w.active.len() implies (#[trigger] w.active[i]).0.active
                        && w.active[i].1.runtime == PluginRuntime::Python by {
                        if i < v.active.len() {
                            assert(w.active[i] == v.active[i]);
                        }
                    }
                }
                assert(same_controller_ids(w.plant.controllers, v.plant.controllers)) by {
                    assert forall|i: int| 0 <= i < w.plant.controllers.len() implies
                        (#[trigger] w.plant.controllers[i]).id == v.plant.controllers[i].id by {
                    }
                }
                law_resolution_runs_only_active_python(s, w, loaded);
            },
            _ => {},
        }
    }
}

/// Saving a controller's configuration leaves every other controller of the
/// plant, and everything else about the plant, as it was; a controller the save
/// adds comes last, active as the save asks.
pub proof fn law_save_keeps_other_controllers(
    p: PlantView,
    pos: Option<int>,
    req: SavePlantControllerConfigRequest,
    plugin: PluginView,
    params: Seq<(Seq<char>, ControllerParamView)>,
)
    requires
        pos matches Some(i) ==> 0 <= i < p.controllers.len(),
    ensures
        ({
            let q = plant_after_save(p, pos, req, plugin, params);
            &&& forall|j: int| 0 <= j < p.controllers.len() && pos != Some(j) ==> (#[trigger] q.controllers[j]) == p.controllers[j]
            &&& q.id == p.id && q.name == p.name && q.variables == p.variables && q.driver == p.driver
            &&& q.connected == p.connected && q.paused == p.paused
            &&& pos is None ==> q.controllers.len() == p.controllers.len() + 1
                && q.controllers.last().id == req.controller_id@ && q.controllers.last().active == req.active
            &&& pos matches Some(i) ==> q.controllers.len() == p.controllers.len() && q.controllers[i].id == p.controllers[i].id
        }),
{
}

/// Storing a plugin keeps a store consistent: the name index holds exactly the
/// names of the plugins, each under its plugin's id.
pub proof fn law_plugin_insert_keeps_consistency(s: PluginStoreView, p: PluginView)
    requires
        distinct_keys(s.entries),
        plugin_store_consistent(s),
        spec_plugin_insert(s, p) is Ok,
    ensures
        match spec_plugin_insert(s, p) {
            Ok(next) => plugin_store_consistent(next),
            Err(_) => false,
        },
{
    let next = spec_plugin_insert(s, p)->Ok_0;
    let key = name_key_of(p.name);
    lemma_push(s.entries, p.id, p);
    assert forall|i: int| #![trigger next.entries[i]] 0 <= i < next.entries.len()
        implies next.names.contains_key(name_key_of(next.entries[i].1.name))
            && next.names[name_key_of(next.entries[i].1.name)] == next.entries[i].0 by {
        if i < s.entries.len() {
            assert(next.entries[i] == s.entries[i]);
            assert(s.names.contains_key(name_key_of(s.entries[i].1.name)));
        }
    }
    assert forall|k: Seq<char>| #[trigger] next.names.contains_key(k) implies has_key(next.entries, next.names[k])
        && name_key_of(next.registries()[next.names[k]].name) == k by {
        if k != key {
            assert(s.names.contains_key(k));
            let id = s.names[k];
            assert(next.names[k] == id);
            let i = choose|i: int| 0 <= i < s.entries.len() && #[trigger] s.entries[i].0 == id;
            assert(next.entries[i].0 == id);
            assert(id != p.id);
            assert(next.registries()[id] == s.registries()[id]);
        } else {
            assert(next.names[k] == p.id);
            assert(next.entries[s.entries.len() as int].0 == p.id);
            assert(next.registries()[p.id] == p);
        }
    }
}

/// Removing a plugin keeps a store consistent.
pub proof fn law_plugin_remove_keeps_consistency(s: PluginStoreView, id: Seq<char>)
    requires
        distinct_keys(s.entries),
        plugin_store_consistent(s),
        spec_plugin_remove(s, id) is Ok,
    ensures
        match spec_plugin_remove(s, id) {
            Ok((next, _)) => plugin_store_consistent(next),
            Err(_) => false,
        },
{
    let i = index_of_key(s.entries, id);
    let next = spec_plugin_remove(s, id)->Ok_0.0;
    let key = name_key_of(s.entries[i].1.name);
    lemma_index_of_key(s.entries, i);
    lemma_remove(s.entries, i);
    law_plugin_names_unique(s);
    assert forall|a: int| #![trigger next.entries[a]] 0 <= a < next.entries.len()
        implies next.names.contains_key(name_key_of(next.entries[a].1.name))
            && next.names[name_key_of(next.entries[a].1.name)] == next.entries[a].0 by {
        let a2 = if a < i { a } else { a + 1 };
        assert(next.entries[a] == s.entries[a2]);
        assert(s.names.contains_key(name_key_of(s.entries[a2].1.name)));
    }
    assert forall|k: Seq<char>| #[trigger] next.names.contains_key(k) implies has_key(next.entries, next.names[k])
        && name_key_of(next.registries()[next.names[k]].name) == k by {
        assert(k != key);
        assert(s.names.contains_key(k));
        let pid = s.names[k];
        assert(next.names[k] == pid);
        assert(has_key(s.entries, pid));
        let b = choose|b: int| 0 <= b < s.entries.len() && #[trigger] s.entries[b].0 == pid;
        lemma_index_of_key(s.entries, b);
        assert(b != i);
        assert(pid != id);
        let b2 = if b < i { b } else { b - 1 };
        assert(next.entries[b2] == s.entries[b]);
        assert(next.registries()[pid] == s.registries()[pid]);
    }
}

/// Replacing a plant by one with the same id keeps a store consistent.
pub proof fn law_plant_replace_keeps_consistency(s: PlantStoreView, id: Seq<char>, reg: PlantView)
    requires
        distinct_keys(s.entries),
        plant_store_consistent(s),
        reg.id == id,
        spec_plant_replace(s, id, reg) is Ok,
    ensures
        match spec_plant_replace(s, id, reg) {
            Ok(next) => plant_store_consistent(next) && distinct_keys(next.entries)
                && next.plants() == s.plants().insert(id, reg),
            Err(_) => false,
        },
{
    let i = index_of_key(s.entries, id);
    let k0 = choose|k: int| 0 <= k < s.entries.len() && #[trigger] s.entries[k].0 == id;
    lemma_index_of_key(s.entries, k0);
    let next = spec_plant_replace(s, id, reg)->Ok_0;
    let prev_key = name_key_of(s.entries[i].1.name);
    let next_key = name_key_of(reg.name);
    lemma_update(s.entries, i, reg);
    assert(next.entries == s.entries.update(i, (s.entries[i].0, reg)));
    law_plant_names_unique(s);
    assert forall|j: int| 0 <= j < next.entries.len() implies (#[trigger] next.entries[j]).0 == next.entries[j].1.id by {
        if j != i {
            assert(next.entries[j] == s.entries[j]);
        }
    }
    assert forall|j: int| #![trigger next.entries[j]] 0 <= j < next.entries.len()
        implies next.names.contains_key(name_key_of(next.entries[j].1.name))
            && next.names[name_key_of(next.entries[j].1.name)] == next.entries[j].0 by {
        if j != i {
            assert(next.entries[j] == s.entries[j]);
            let kj = name_key_of(s.entries[j].1.name);
            assert(s.names.contains_key(kj) && s.names[kj] == s.entries[j].0);
            assert(kj != prev_key);
            assert(s.entries[j].0 != id);
        }
    }
    assert forall|k: Seq<char>| #[trigger] next.names.contains_key(k) implies has_key(next.entries, next.names[k])
        && name_key_of(next.plants()[next.names[k]].name) == k by {
        if k == next_key {
            assert(next.names[k] == id);
            assert(next.entries[i].0 == id);
        } else {
            assert(k != prev_key);
            assert(s.names.contains_key(k));
            let pid = s.names[k];
            assert(next.names[k] == pid);
            let b = choose|b: int| 0 <= b < s.entries.len() && #[trigger] s.entries[b].0 == pid;
            lemma_index_of_key(s.entries, b);
            assert(pid != id);
            assert(next.entries[b].0 == pid);
            assert(next.plants()[pid] == s.plants()[pid]);
        }
    }
}


/// Whether `types` names `id` as a variable of kind `t`: the variable at the
/// position whose label is `id` has that kind.
pub open spec fn names_kind(types: Seq<VariableType>, id: Seq<char>, t: VariableType) -> bool {
    exists|k: int| 0 <= k < types.len() && var_label(k) == id && types[k] == t
}

/// An input that passes the check names a sensor.
proof fn lemma_input_passes(types: Seq<VariableType>, id: Seq<char>)
    requires
        input_error(types, id) is None,
    ensures
        names_kind(types, id, VariableType::Sensor),
{
    let k = choose|i: int| 0 <= i < types.len() && var_label(i) == id;
    assert(0 <= k < types.len() && var_label(k) == id && types[k] == VariableType::Sensor);
}

/// An input that names an actuator fails the check.
proof fn lemma_actuator_input_fails(types: Seq<VariableType>, id: Seq<char>, k: int)
    requires
        0 <= k < types.len(),
        var_label(k) == id,
        types[k] == VariableType::Atuador,
    ensures
        input_error(types, id) is Some,
{
    let c = choose|i: int| 0 <= i < types.len() && var_label(i) == id;
    lemma_var_label_injective(c, k);
}

/// A controller that passes its check reads only sensors.
pub proof fn lemma_accepted_controller_reads_sensors(c: ControllerRequestView, types: Seq<VariableType>, plugins: PluginStoreView)
    requires
        controller_error(c, types, plugins) is None,
    ensures
        forall|j: int| 0 <= j < c.input_variable_ids.len() ==> names_kind(types, #[trigger] c.input_variable_ids[j], VariableType::Sensor),
{
    let s = c.input_variable_ids.map_values(|id: Seq<char>| input_error(types, id));
    lemma_first_some_none_all(s);
    assert forall|j: int| 0 <= j < c.input_variable_ids.len() implies
        names_kind(types, #[trigger] c.input_variable_ids[j], VariableType::Sensor) by {
        assert(s[j] is None);
        lemma_input_passes(types, c.input_variable_ids[j]);
    }
}

/// A controller with an input that names an actuator fails its check.
pub proof fn lemma_actuator_input_refused(c: ControllerRequestView, types: Seq<VariableType>, plugins: PluginStoreView, j: int, k: int)
    requires
        0 <= j < c.input_variable_ids.len(),
        0 <= k < types.len(),
        var_label(k) == c.input_variable_ids[j],
        types[k] == VariableType::Atuador,
    ensures
        controller_error(c, types, plugins) is Some,
{
    let s = c.input_variable_ids.map_values(|id: Seq<char>| input_error(types, id));
    lemma_actuator_input_fails(types, c.input_variable_ids[j], k);
    assert(s[j] is Some);
    if first_some(s) is None {
        lemma_first_some_none_all(s);
        assert(s[j] is None);
    }
}

/// A plant request is accepted, to create a plant or to change one, only when
/// every input of every controller names a sensor of the request's variables;
/// a controller that reads an actuator gets the request refused.
pub proof fn law_controller_inputs_are_sensors(
    store: PlantStoreView,
    plugins: PluginStoreView,
    current_id: Option<Seq<char>>,
    name: Seq<char>,
    sample_time_ms: u64,
    variables: Seq<CreatePlantVariableRequest>,
    driver_plugin_id: Seq<char>,
    controllers: Seq<ControllerRequestView>,
)
    ensures
        payload_error(store, plugins, current_id, name, sample_time_ms, variables, driver_plugin_id, controllers) is None
            ==> forall|k: int, j: int| 0 <= k < controllers.len() && 0 <= j < controllers[k].input_variable_ids.len()
                ==> names_kind(variable_types(variables), #[trigger] controllers[k].input_variable_ids[j], VariableType::Sensor),
        (exists|k: int, j: int, v: int| #![trigger controllers[k].input_variable_ids[j], variables[v]]
            0 <= k < controllers.len() && 0 <= j < controllers[k].input_variable_ids.len()
            && 0 <= v < variables.len() && var_label(v) == controllers[k].input_variable_ids[j]
            && variables[v].var_type == VariableType::Atuador)
            ==> payload_error(store, plugins, current_id, name, sample_time_ms, variables, driver_plugin_id, controllers) is Some,
{
    let types = variable_types(variables);
    let errs = controller_errors(controllers, types, plugins);
    if payload_error(store, plugins, current_id, name, sample_time_ms, variables, driver_plugin_id, controllers) is None {
        lemma_first_some_none_all(errs);
        assert forall|k: int, j: int| 0 <= k < controllers.len() && 0 <= j < controllers[k].input_variable_ids.len()
            implies names_kind(types, #[trigger] controllers[k].input_variable_ids[j], VariableType::Sensor) by {
            assert(errs[k] is None);
            assert(indexed_controller_error(k, controllers[k], types, plugins) is None);
            lemma_accepted_controller_reads_sensors(controllers[k], types, plugins);
        }
    }
    if exists|k: int, j: int, v: int| #![trigger controllers[k].input_variable_ids[j], variables[v]]
        0 <= k < controllers.len() && 0 <= j < controllers[k].input_variable_ids.len()
        && 0 <= v < variables.len() && var_label(v) == controllers[k].input_variable_ids[j]
        && variables[v].var_type == VariableType::Atuador {
        let (k, j, v) = choose|k: int, j: int, v: int| #![trigger controllers[k].input_variable_ids[j], variables[v]]
            0 <= k < controllers.len() && 0 <= j < controllers[k].input_variable_ids.len()
            && 0 <= v < variables.len() && var_label(v) == controllers[k].input_variable_ids[j]
            && variables[v].var_type == VariableType::Atuador;
        assert(types[v] == VariableType::Atuador);
        lemma_actuator_input_refused(controllers[k], types, plugins, j, v);
        assert(errs[k] is Some);
        if first_some(errs) is None {
            lemma_first_some_none_all(errs);
            assert(errs[k] is None);
        }
    }
}

/// A saved controller configuration is accepted only when every input of the
/// controller names a sensor of the plant; an input that names an actuator
/// gets the save refused.
pub proof fn law_saved_controller_reads_sensors(s: PlantStoreView, plugins: PluginStoreView, req: SavePlantControllerConfigRequest)
    ensures
        controller_save_outcome(s, plugins, req) is Ok ==> forall|j: int| 0 <= j < req.input_variable_ids.len()
            ==> names_kind(plant_variable_types(s.plants()[req.plant_id@].variables),
                #[trigger] req.input_variable_ids.deep_view()[j], VariableType::Sensor),
        (has_key(s.entries, req.plant_id@) && exists|j: int, v: int| #![trigger req.input_variable_ids.deep_view()[j], s.plants()[req.plant_id@].variables[v]]
            0 <= j < req.input_variable_ids.len() && 0 <= v < s.plants()[req.plant_id@].variables.len()
            && var_label(v) == req.input_variable_ids.deep_view()[j]
            && s.plants()[req.plant_id@].variables[v].var_type == VariableType::Atuador)
            ==> controller_save_outcome(s, plugins, req) is Err,
{
    if has_key(s.entries, req.plant_id@) {
        let plant = s.plants()[req.plant_id@];
        let types = plant_variable_types(plant.variables);
        let pos = controller_position(plant.controllers, req.controller_id@);
        let existing = match pos {
            Some(i) => Some(plant.controllers[i]),
            None => None,
        };
        match crate::controller_config::chosen_plugin_id(req.plugin_id.deep_view(), existing) {
            None => {},
            Some(pid) => match spec_resolve_plugin(plugins, pid, PluginType::Controller) {
                Err(_) => {},
                Ok(plugin) => {
                    let saved = crate::controller_config::saved_request(req, plugin);
                    assert(saved.input_variable_ids == req.input_variable_ids.deep_view());
                    if controller_error(saved, types, plugins) is None {
                        lemma_accepted_controller_reads_sensors(saved, types, plugins);
                    }
                    if exists|j: int, v: int| #![trigger req.input_variable_ids.deep_view()[j], s.plants()[req.plant_id@].variables[v]]
                        0 <= j < req.input_variable_ids.len() && 0 <= v < s.plants()[req.plant_id@].variables.len()
                        && var_label(v) == req.input_variable_ids.deep_view()[j]
                        && s.plants()[req.plant_id@].variables[v].var_type == VariableType::Atuador {
                        let (j, v) = choose|j: int, v: int| #![trigger req.input_variable_ids.deep_view()[j], s.plants()[req.plant_id@].variables[v]]
                            0 <= j < req.input_variable_ids.len() && 0 <= v < s.plants()[req.plant_id@].variables.len()
                            && var_label(v) == req.input_variable_ids.deep_view()[j]
                            && s.plants()[req.plant_id@].variables[v].var_type == VariableType::Atuador;
                        assert(types[v] == VariableType::Atuador);
                        lemma_actuator_input_refused(saved, types, plugins, j, v);
                    }
                },
            },
        }
    }
}

/// A setpoint that is saved belongs to a sensor named by the request and lies
/// within that sensor's range (neither below `pv_min` nor above `pv_max`); only
/// that variable's setpoint changes. A setpoint outside the range of every
/// variable with that id is refused.
pub proof fn law_saved_setpoint_within_range(s: PlantStoreView, plant_id: Seq<char>, variable_id: Seq<char>, setpoint: u64)
    ensures
        setpoint_outcome(s, plant_id, variable_id, setpoint) matches Ok(q) ==> {
            let p = s.plants()[plant_id];
            &&& q == PlantView { variables: q.variables, ..p }
            &&& q.variables.len() == p.variables.len()
            &&& exists|i: int| #![trigger p.variables[i]] 0 <= i < p.variables.len()
                && p.variables[i].id == variable_id
                && p.variables[i].var_type == VariableType::Sensor
                && !f64_lt(setpoint, p.variables[i].pv_min)
                && !f64_lt(p.variables[i].pv_max, setpoint)
                && q.variables[i] == (VariableView { setpoint, ..p.variables[i] })
                && forall|j: int| 0 <= j < p.variables.len() && j != i ==> #[trigger] q.variables[j] == p.variables[j]
        },
        (forall|i: int| 0 <= i < s.plants()[plant_id].variables.len() && #[trigger] s.plants()[plant_id].variables[i].id == variable_id
            ==> f64_lt(setpoint, s.plants()[plant_id].variables[i].pv_min) || f64_lt(s.plants()[plant_id].variables[i].pv_max, setpoint))
            ==> setpoint_outcome(s, plant_id, variable_id, setpoint) is Err,
{
    if has_key(s.entries, plant_id) {
        let p = s.plants()[plant_id];
        let hits = Seq::new(p.variables.len(), |i: int| if p.variables[i].id == variable_id { Some(i) } else { None });
        if variable_position(p.variables, variable_id) is Some {
            lemma_first_some_found(hits);
            let i = variable_position(p.variables, variable_id)->Some_0;
            let j = choose|j: int| 0 <= j < hits.len() && #[trigger] hits[j] == first_some(hits);
            assert(hits[j] == Some(i));
            assert(0 <= i < p.variables.len() && p.variables[i].id == variable_id);
            if let Ok(q) = setpoint_outcome(s, plant_id, variable_id, setpoint) {
                assert(q.variables[i] == (VariableView { setpoint, ..p.variables[i] }));
                assert(p.variables[i] == p.variables[i]);
            }
        }
    }
}

/// Removing a controller keeps, in order, exactly the controllers with
/// another id: none left has the removed id, and every controller with another
/// id is still there.
pub proof fn law_removal_keeps_the_other_controllers(cs: Seq<ControllerView>, id: Seq<char>)
    ensures
        retained_controllers(cs, id) == cs.filter(|c: ControllerView| c.id != id),
        forall|i: int| 0 <= i < retained_controllers(cs, id).len() ==> (#[trigger] retained_controllers(cs, id)[i]).id != id,
        forall|j: int| 0 <= j < cs.len() && (#[trigger] cs[j]).id != id ==> retained_controllers(cs, id).contains(cs[j]),
    decreases cs.len(),
{
    let pred = |c: ControllerView| c.id != id;
    reveal(Seq::filter);
    if cs.len() > 0 {
        law_removal_keeps_the_other_controllers(cs.drop_last(), id);
    }
    assert(retained_controllers(cs, id) == cs.filter(pred));
    assert forall|i: int| 0 <= i < retained_controllers(cs, id).len() implies (#[trigger] retained_controllers(cs, id)[i]).id != id by {
        cs.lemma_filter_pred(pred, i);
    }
    assert forall|j: int| 0 <= j < cs.len() && (#[trigger] cs[j]).id != id implies retained_controllers(cs, id).contains(cs[j]) by {
        cs.lemma_filter_contains(pred, j);
    }
}

/// Removing a controller from a plant leaves it exactly the controllers with
/// another id, in order, and the rest of the plant as it was.
pub proof fn law_controller_removal_result(s: PlantStoreView, plant_id: Seq<char>, controller_id: Seq<char>)
    ensures
        controller_removal_outcome(s, plant_id, controller_id) matches Ok(q) ==> {
            let p = s.plants()[plant_id];
            &&& q == PlantView { controllers: q.controllers, ..p }
            &&& q.controllers == p.controllers.filter(|c: ControllerView| c.id != controller_id)
            &&& forall|j: int| 0 <= j < p.controllers.len() && (#[trigger] p.controllers[j]).id != controller_id ==> q.controllers.contains(p.controllers[j])
            &&& forall|i: int| 0 <= i < q.controllers.len() ==> (#[trigger] q.controllers[i]).id != controller_id
        },
{
    if has_key(s.entries, plant_id) {
        law_removal_keeps_the_other_controllers(s.plants()[plant_id].controllers, controller_id);
    }
}

/// A saved controller takes what the save asks: the plugin, the trimmed name
/// and kind, the activity, the inputs and outputs, and the parameters given;
/// this holds of a controller the plant had as of one the save adds.
pub proof fn law_saved_controller_takes_the_request(
    p: PlantView,
    pos: Option<int>,
    req: SavePlantControllerConfigRequest,
    plugin: PluginView,
    params: Seq<(Seq<char>, ControllerParamView)>,
)
    requires
        pos matches Some(i) ==> 0 <= i < p.controllers.len(),
    ensures
        ({
            let q = plant_after_save(p, pos, req, plugin, params);
            let c = match pos { Some(i) => q.controllers[i], None => q.controllers.last() };
            &&& c.params == params
            &&& c.plugin_id == plugin.id && c.plugin_name == plugin.name
            &&& c.name == crate::text::trimmed(req.name@) && c.controller_type == crate::text::trimmed(req.controller_type@)
            &&& c.active == req.active
            &&& c.input_variable_ids == req.input_variable_ids.deep_view()
            &&& c.output_variable_ids == req.output_variable_ids.deep_view()
        }),
{
}

/// A controller configuration that is saved holds, under the controller's id,
/// the parameters of the request (a later entry for a key over an earlier one)
/// filled with the schema defaults of the controller plugin it names, whether
/// the controller is new or was there before.
pub proof fn law_saved_controller_params(s: PlantStoreView, plugins: PluginStoreView, req: SavePlantControllerConfigRequest)
    ensures
        controller_save_outcome(s, plugins, req) matches Ok(q) ==>
            exists|i: int, pid: Seq<char>| #![trigger q.controllers[i], plugins.registries()[pid]]
                0 <= i < q.controllers.len()
                && q.controllers[i].id == req.controller_id@
                && has_key(plugins.entries, pid)
                && plugins.registries()[pid].plugin_type == PluginType::Controller
                && q.controllers[i].plugin_id == plugins.registries()[pid].id
                && q.controllers[i].active == req.active
                && q.controllers[i].params == filled_params(collected_params(req.params.deep_view()), plugins.registries()[pid].schema),
{
    if let Ok(q) = controller_save_outcome(s, plugins, req) {
        let plant = s.plants()[req.plant_id@];
        let pos = controller_position(plant.controllers, req.controller_id@);
        let existing = match pos {
            Some(i) => Some(plant.controllers[i]),
            None => None,
        };
        let pid = crate::controller_config::chosen_plugin_id(req.plugin_id.deep_view(), existing)->Some_0;
        let plugin = plugins.registries()[pid];
        let params = filled_params(collected_params(req.params.deep_view()), plugin.schema);
        match pos {
            Some(i) => {
                let hits = Seq::new(plant.controllers.len(), |k: int| if plant.controllers[k].id == req.controller_id@ { Some(k) } else { None });
                lemma_first_some_found(hits);
                let j = choose|j: int| 0 <= j < hits.len() && #[trigger] hits[j] == first_some(hits);
                assert(hits[j] == Some(i));
                assert(q.controllers[i] == crate::controller_config::controller_after_save(plant.controllers[i], req, plugin, params));
                assert(q.controllers[i].params == params);
            },
            None => {
                let i = q.controllers.len() - 1;
                assert(q.controllers[i] == crate::controller_config::controller_added_by_save(req, plugin, params));
            },
        }
    }
}

/// A registry variable whose `setpoint`, `pv_min` or `pv_max` member is a
/// number is read with that number.
pub proof fn law_registry_variable_keeps_its_numbers(v: JsonView, i: int)
    ensures
        registry_variable(v, i) matches Ok(x) ==> {
            let m = as_object(v)->Some_0;
            &&& (member_of(m, "setpoint"@) matches Some(n) ==> (as_f64(n) is Some ==> x.setpoint == as_f64(n)->Some_0))
            &&& (member_of(m, "pv_min"@) matches Some(n) ==> (as_f64(n) is Some ==> x.pv_min == as_f64(n)->Some_0))
            &&& (member_of(m, "pv_max"@) matches Some(n) ==> (as_f64(n) is Some ==> x.pv_max == as_f64(n)->Some_0))
        },
{
    if let Ok(x) = registry_variable(v, i) {
        let m = as_object(v)->Some_0;
        reveal_with_fuel(crate::json::member_by_keys, 2);
    }
}

/// A plant that is created has every input of every controller naming a
/// sensor of its variables.
pub proof fn law_created_plant_controllers_read_sensors(
    old: PlantStoreView,
    plugins: PluginStoreView,
    request: crate::models::CreatePlantRequest,
    dt: u64,
    new: PlantStoreView,
    r: Result<PlantView, crate::error::ErrorView>,
)
    requires
        crate::plant_service::plant_create_outcome(old, plugins, request, dt, new, r),
        r is Ok,
    ensures
        forall|k: int, j: int| 0 <= k < request.controllers.len() && 0 <= j < request.controllers@[k].input_variable_ids.len()
            ==> names_kind(variable_types(request.variables@),
                #[trigger] request.controllers.deep_view()[k].input_variable_ids[j], VariableType::Sensor),
{
    let cs = request.controllers.deep_view();
    law_controller_inputs_are_sensors(old, plugins, None, request.name@, request.sample_time_ms, request.variables@,
        request.driver.plugin_id@, cs);
    assert forall|k: int, j: int| 0 <= k < request.controllers.len() && 0 <= j < request.controllers@[k].input_variable_ids.len()
        implies names_kind(variable_types(request.variables@), #[trigger] cs[k].input_variable_ids[j], VariableType::Sensor) by {
        assert(cs[k].input_variable_ids.len() == request.controllers@[k].input_variable_ids.len());
    }
}

} // verus!
