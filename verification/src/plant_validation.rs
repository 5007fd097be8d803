//! The rules a plant request must meet: its name, variables, driver and controllers.
use vstd::prelude::*;
use crate::error::{AppError, AppResult, ErrorView, concat2, concat3, error_display, invalid_argument};
use crate::first::{first_some, lemma_first_some_at, lemma_first_some_none};
use crate::keyed::{Keyed, find_key, has_key};
use crate::models::{
    CreatePlantDriverRequest, CreatePlantControllerRequest, ControllerRequestView, CreatePlantVariableRequest, PluginRegistry,
    PluginType, PluginView, VariableType,
};
use crate::plugin_store::{PluginStore, PluginStoreView, plugin_not_found};
use crate::plant_store::{PlantStore, PlantStoreView, plant_name_required};
use crate::float_bits::{f64_le, f64_lt, le_bits, lt_bits};
use crate::text::name_key_of;
use crate::text::{blank, decimal_of, format_decimal, is_blank, lemma_decimal_injective, trim, trimmed};

verus! {

broadcast use vstd::std_specs::vec::group_vec_axioms;

/// The plugin stored under `id`, provided it is of the expected kind.
pub open spec fn spec_resolve_plugin(store: PluginStoreView, id: Seq<char>, expected: PluginType) -> Result<PluginView, ErrorView> {
    if !has_key(store.entries, id) {
        Err(plugin_not_found(id))
    } else {
        let p = store.registries()[id];
        if p.plugin_type != expected {
            Err(ErrorView::InvalidArgument("Plugin '"@ + p.name + "' não é do tipo "@ + expected.label_of()))
        } else {
            Ok(p)
        }
    }
}

/// The plugin stored under `plugin_id`, provided it is of the expected kind.
pub fn resolve_plugin(plugins: &PluginStore, plugin_id: &str, expected_type: PluginType) -> (r: AppResult<PluginRegistry>)
    requires
        plugins.wf(),
    ensures
        match spec_resolve_plugin(plugins@, plugin_id@, expected_type) {
            Ok(p) => r matches Ok(x) && x@ == p,
            Err(e) => r matches Err(x) && x@ == e,
        },
{
    let plugin = plugins.get(plugin_id)?;
    if plugin.plugin_type != expected_type {
        let label = expected_type.as_label();
        let mut msg = concat3("Plugin '", plugin.name.as_str(), "' não é do tipo ");
        msg.append(label.as_str());
        return Err(AppError::InvalidArgument(msg));
    }
    Ok(plugin)
}

/// The id the variable at position `i` of a request gets: `var_<i>`.
pub open spec fn var_label(i: int) -> Seq<char> {
    "var_"@ + decimal_of(i as nat)
}

/// The kinds of the variables of a request, in order.
pub open spec fn variable_types(vs: Seq<CreatePlantVariableRequest>) -> Seq<VariableType> {
    vs.map_values(|v: CreatePlantVariableRequest| v.var_type)
}

/// The kind of the variable whose id is `id`, if there is one: the variable at
/// position `i` has the id `var_<i>`.
pub open spec fn var_type_at(types: Seq<VariableType>, id: Seq<char>) -> Option<VariableType> {
    if exists|i: int| 0 <= i < types.len() && var_label(i) == id {
        Some(types[choose|i: int| 0 <= i < types.len() && var_label(i) == id])
    } else {
        None
    }
}

pub proof fn lemma_var_label_injective(i: int, j: int)
    requires
        0 <= i,
        0 <= j,
        var_label(i) == var_label(j),
    ensures
        i == j,
{
    reveal_strlit("var_");
    let a = decimal_of(i as nat);
    let b = decimal_of(j as nat);
    assert(var_label(i).subrange(4, var_label(i).len() as int) =~= a);
    assert(var_label(j).subrange(4, var_label(j).len() as int) =~= b);
    lemma_decimal_injective(i as nat, j as nat);
}

/// The kind of the request variable whose id is `id`, if there is one.
pub fn variable_type_of(variables: &Vec<CreatePlantVariableRequest>, id: &String) -> (r: Option<VariableType>)
    ensures
        r == var_type_at(variable_types(variables@), id@),
{
    let mut i: usize = 0;
    while i < variables.len()
        invariant
            i <= variables.len(),
            forall|j: int| 0 <= j < i ==> var_label(j) != id@,
        decreases variables.len() - i,
    {
        let label = concat2("var_", format_decimal(i).as_str());
        if label == *id {
            proof {
                let types = variable_types(variables@);
                assert(0 <= i < types.len() && var_label(i as int) == id@);
                let k = choose|k: int| 0 <= k < types.len() && var_label(k) == id@;
                lemma_var_label_injective(k, i as int);
            }
            return Some(variables[i].var_type);
        }
        i += 1;
    }
    None
}

/// The error, if any, of one input id of a controller.
pub open spec fn input_error(types: Seq<VariableType>, id: Seq<char>) -> Option<ErrorView> {
    match var_type_at(types, id) {
        Some(VariableType::Sensor) => None,
        Some(VariableType::Atuador) => Some(ErrorView::InvalidArgument("A variável '"@ + id + "' não pode ser usada como entrada"@)),
        None => Some(ErrorView::InvalidArgument("Variável de entrada '"@ + id + "' não existe"@)),
    }
}

/// The error, if any, of one output id of a controller.
pub open spec fn output_error(types: Seq<VariableType>, id: Seq<char>) -> Option<ErrorView> {
    match var_type_at(types, id) {
        Some(VariableType::Atuador) => None,
        Some(VariableType::Sensor) => Some(ErrorView::InvalidArgument("A variável '"@ + id + "' não pode ser usada como saída"@)),
        None => Some(ErrorView::InvalidArgument("Variável de saída '"@ + id + "' não existe"@)),
    }
}

/// The error, if any, with which a controller of a plant request is refused.
pub open spec fn controller_error(
    c: ControllerRequestView,
    types: Seq<VariableType>,
    plugins: PluginStoreView,
) -> Option<ErrorView> {
    if blank(c.plugin_id) {
        Some(ErrorView::InvalidArgument("Plugin do controlador é obrigatório"@))
    } else if blank(c.name) {
        Some(ErrorView::InvalidArgument("Nome do controlador é obrigatório"@))
    } else if blank(c.controller_type) {
        Some(ErrorView::InvalidArgument("Tipo do controlador é obrigatório"@))
    } else if c.input_variable_ids.len() == 0 {
        Some(ErrorView::InvalidArgument("O controlador precisa de pelo menos uma variável de entrada"@))
    } else if c.output_variable_ids.len() == 0 {
        Some(ErrorView::InvalidArgument("O controlador precisa de pelo menos uma variável de saída"@))
    } else if first_some(c.input_variable_ids.map_values(|id: Seq<char>| input_error(types, id))) is Some {
        first_some(c.input_variable_ids.map_values(|id: Seq<char>| input_error(types, id)))
    } else if first_some(c.output_variable_ids.map_values(|id: Seq<char>| output_error(types, id))) is Some {
        first_some(c.output_variable_ids.map_values(|id: Seq<char>| output_error(types, id)))
    } else {
        match spec_resolve_plugin(plugins, c.plugin_id, PluginType::Controller) {
            Ok(_) => None,
            Err(e) => Some(e),
        }
    }
}

/// Checks one controller of a plant request against the request's variables.
#[verifier::loop_isolation(false)]
pub fn validate_controller(
    controller: &CreatePlantControllerRequest,
    variables: &Vec<CreatePlantVariableRequest>,
    plugins: &PluginStore,
) -> (r: AppResult<()>)
    requires
        plugins.wf(),
    ensures
        match controller_error(controller.deep_view(), variable_types(variables@), plugins@) {
            Some(e) => r matches Err(x) && x@ == e,
            None => r is Ok,
        },
{
    if is_blank(controller.plugin_id.as_str()) {
        return Err(invalid_argument("Plugin do controlador é obrigatório"));
    }
    if is_blank(controller.name.as_str()) {
        return Err(invalid_argument("Nome do controlador é obrigatório"));
    }
    if is_blank(controller.controller_type.as_str()) {
        return Err(invalid_argument("Tipo do controlador é obrigatório"));
    }
    if controller.input_variable_ids.len() == 0 {
        return Err(invalid_argument("O controlador precisa de pelo menos uma variável de entrada"));
    }
    if controller.output_variable_ids.len() == 0 {
        return Err(invalid_argument("O controlador precisa de pelo menos uma variável de saída"));
    }
    let ghost ins = controller.input_variable_ids.deep_view().map_values(|id: Seq<char>| input_error(variable_types(variables@), id));
    let mut i: usize = 0;
    while i < controller.input_variable_ids.len()
        invariant
            i <= controller.input_variable_ids.len(),
            ins == controller.input_variable_ids.deep_view().map_values(|id: Seq<char>| input_error(variable_types(variables@), id)),
            forall|j: int| 0 <= j < i ==> (#[trigger] ins[j]) is None,
        decreases controller.input_variable_ids.len() - i,
    {
        let id = &controller.input_variable_ids[i];
        assert(ins[i as int] == input_error(variable_types(variables@), id@));
        match variable_type_of(variables, id) {
            Some(VariableType::Sensor) => {},
            Some(VariableType::Atuador) => {
                proof { lemma_first_some_at(ins, i as int); }
                return Err(AppError::InvalidArgument(concat3("A variável '", id.as_str(), "' não pode ser usada como entrada")));
            },
            None => {
                proof { lemma_first_some_at(ins, i as int); }
                return Err(AppError::InvalidArgument(concat3("Variável de entrada '", id.as_str(), "' não existe")));
            },
        }
        i += 1;
    }
    proof { lemma_first_some_none(ins); }
    let ghost outs = controller.output_variable_ids.deep_view().map_values(|id: Seq<char>| output_error(variable_types(variables@), id));
    let mut i: usize = 0;
    while i < controller.output_variable_ids.len()
        invariant
            i <= controller.output_variable_ids.len(),
            outs == controller.output_variable_ids.deep_view().map_values(|id: Seq<char>| output_error(variable_types(variables@), id)),
            forall|j: int| 0 <= j < i ==> (#[trigger] outs[j]) is None,
        decreases controller.output_variable_ids.len() - i,
    {
        let id = &controller.output_variable_ids[i];
        assert(outs[i as int] == output_error(variable_types(variables@), id@));
        match variable_type_of(variables, id) {
            Some(VariableType::Atuador) => {},
            Some(VariableType::Sensor) => {
                proof { lemma_first_some_at(outs, i as int); }
                return Err(AppError::InvalidArgument(concat3("A variável '", id.as_str(), "' não pode ser usada como saída")));
            },
            None => {
                proof { lemma_first_some_at(outs, i as int); }
                return Err(AppError::InvalidArgument(concat3("Variável de saída '", id.as_str(), "' não existe")));
            },
        }
        i += 1;
    }
    proof { lemma_first_some_none(outs); }
    resolve_plugin(plugins, controller.plugin_id.as_str(), PluginType::Controller)?;
    Ok(())
}

/// The outputs claimed by the active controllers, in order: each output id with
/// the trimmed and the given name of the controller claiming it.
pub open spec fn active_outputs(cs: Seq<ControllerRequestView>) -> Seq<(Seq<char>, Seq<char>, Seq<char>)>
    decreases cs.len(),
{
    if cs.len() == 0 {
        Seq::empty()
    } else {
        let c = cs.last();
        let prev = active_outputs(cs.drop_last());
        if c.active {
            prev + c.output_variable_ids.map_values(|o: Seq<char>| (o, trimmed(c.name), c.name))
        } else {
            prev
        }
    }
}

/// The error for the first output claimed a second time, if any.
pub open spec fn conflict_error(s: Seq<(Seq<char>, Seq<char>, Seq<char>)>) -> Option<ErrorView>
    decreases s.len(),
{
    if s.len() == 0 {
        None
    } else {
        match conflict_error(s.drop_last()) {
            Some(e) => Some(e),
            None => {
                let prev = s.drop_last();
                let last = s.last();
                if exists|q: int| 0 <= q < prev.len() && #[trigger] prev[q].0 == last.0 {
                    let q = choose|q: int| 0 <= q < prev.len() && #[trigger] prev[q].0 == last.0;
                    Some(ErrorView::InvalidArgument("A saída '"@ + last.0 + "' não pode ser controlada ao mesmo tempo por '"@
                        + prev[q].1 + "' e '"@ + last.2 + "'"@))
                } else {
                    None
                }
            },
        }
    }
}

proof fn lemma_conflict_persists(s: Seq<(Seq<char>, Seq<char>, Seq<char>)>, t: Seq<(Seq<char>, Seq<char>, Seq<char>)>)
    requires
        conflict_error(s) is Some,
    ensures
        conflict_error(s + t) == conflict_error(s),
    decreases t.len(),
{
    if t.len() > 0 {
        lemma_conflict_persists(s, t.drop_last());
        assert((s + t).drop_last() =~= s + t.drop_last());
    } else {
        assert(s + t =~= s);
    }
}

proof fn lemma_no_conflict_distinct(s: Seq<(Seq<char>, Seq<char>, Seq<char>)>)
    requires
        conflict_error(s) is None,
    ensures
        forall|a: int, b: int| 0 <= a < s.len() && 0 <= b < s.len() && a != b ==> #[trigger] s[a].0 != #[trigger] s[b].0,
    decreases s.len(),
{
    if s.len() > 0 {
        let prev = s.drop_last();
        lemma_no_conflict_distinct(prev);
        assert forall|a: int, b: int| 0 <= a < s.len() && 0 <= b < s.len() && a != b implies #[trigger] s[a].0 != #[trigger] s[b].0 by {
            if a < prev.len() && b < prev.len() {
                assert(prev[a] == s[a] && prev[b] == s[b]);
            } else if a < prev.len() {
                assert(prev[a] == s[a]);
            } else {
                assert(prev[b] == s[b]);
            }
        }
    }
}

proof fn lemma_active_outputs_step(cs: Seq<ControllerRequestView>, i: int)
    requires
        0 <= i < cs.len(),
    ensures
        active_outputs(cs.take(i + 1)) == if cs[i].active {
            active_outputs(cs.take(i)) + cs[i].output_variable_ids.map_values(|o: Seq<char>| (o, trimmed(cs[i].name), cs[i].name))
        } else {
            active_outputs(cs.take(i))
        },
{
    assert(cs.take(i + 1).drop_last() =~= cs.take(i));
}

proof fn lemma_active_prefix(cs: Seq<ControllerRequestView>, j: int) -> (t: Seq<(Seq<char>, Seq<char>, Seq<char>)>)
    requires
        0 <= j <= cs.len(),
    ensures
        active_outputs(cs) == active_outputs(cs.take(j)) + t,
    decreases cs.len() - j,
{
    if j == cs.len() {
        assert(cs.take(j) =~= cs);
        assert(active_outputs(cs) + Seq::empty() =~= active_outputs(cs));
        Seq::empty()
    } else {
        let t0 = lemma_active_prefix(cs, j + 1);
        lemma_active_outputs_step(cs, j);
        if cs[j].active {
            let extra = cs[j].output_variable_ids.map_values(|o: Seq<char>| (o, trimmed(cs[j].name), cs[j].name));
            assert(active_outputs(cs) =~= active_outputs(cs.take(j)) + (extra + t0));
            extra + t0
        } else {
            t0
        }
    }
}

/// Checks that no output is driven by two active controllers at once.
pub fn validate_active_controller_conflicts(controllers: &Vec<CreatePlantControllerRequest>) -> (r: AppResult<()>)
    ensures
        match conflict_error(active_outputs(controllers.deep_view())) {
            Some(e) => r matches Err(x) && x@ == e,
            None => r is Ok,
        },
{
    let ghost cs = controllers.deep_view();
    let mut owned: Vec<Keyed<String>> = Vec::new();
    let mut ci: usize = 0;
    assert(cs.take(0) =~= Seq::<ControllerRequestView>::empty());
    while ci < controllers.len()
        invariant
            ci <= controllers.len(),
            cs == controllers.deep_view(),
            conflict_error(active_outputs(cs.take(ci as int))) is None,
            owned.deep_view() == active_outputs(cs.take(ci as int)).map_values(|e: (Seq<char>, Seq<char>, Seq<char>)| (e.0, e.1)),
        decreases controllers.len() - ci,
    {
        let controller = &controllers[ci];
        let ghost base = active_outputs(cs.take(ci as int));
        let ghost c = cs[ci as int];
        proof { lemma_active_outputs_step(cs, ci as int); }
        if controller.active {
            let owner = trim(controller.name.as_str());
            let ghost outs = c.output_variable_ids.map_values(|o: Seq<char>| (o, trimmed(c.name), c.name));
            let mut oi: usize = 0;
            assert(outs.take(0) =~= Seq::<(Seq<char>, Seq<char>, Seq<char>)>::empty());
            assert(base + outs.take(0) =~= base);
            while oi < controller.output_variable_ids.len()
                invariant
                    oi <= controller.output_variable_ids.len(),
                    ci < controllers.len(),
                    cs == controllers.deep_view(),
                    base == active_outputs(cs.take(ci as int)),
                    active_outputs(cs.take(ci + 1)) == base + outs,
                    c == controllers.deep_view()[ci as int],
                    controller.deep_view() == c,
                    owner@ == trimmed(c.name),
                    outs == c.output_variable_ids.map_values(|o: Seq<char>| (o, trimmed(c.name), c.name)),
                    conflict_error(base + outs.take(oi as int)) is None,
                    owned.deep_view() == (base + outs.take(oi as int)).map_values(|e: (Seq<char>, Seq<char>, Seq<char>)| (e.0, e.1)),
                decreases controller.output_variable_ids.len() - oi,
            {
                let out_id = &controller.output_variable_ids[oi];
                let ghost prefix = base + outs.take(oi as int);
                let ghost next = base + outs.take(oi + 1);
                assert(next =~= prefix.push(outs[oi as int]));
                assert(next.drop_last() =~= prefix);
                assert(outs[oi as int].0 == out_id@);
                proof { lemma_no_conflict_distinct(prefix); }
                match find_key(&owned, out_id) {
                    Some(j) => {
                        let ghost q = j as int;
                        let ghost proj = prefix.map_values(|e: (Seq<char>, Seq<char>, Seq<char>)| (e.0, e.1));
                        assert(owned.deep_view() == proj);
                        assert(proj.len() == prefix.len());
                        assert(0 <= q < prefix.len());
                        assert(proj[q] == (prefix[q].0, prefix[q].1));
                        assert(owned.deep_view()[q] == (prefix[q].0, prefix[q].1));
                        assert(prefix[q].0 == out_id@);
                        proof {
                            let w = choose|w: int| 0 <= w < prefix.len() && #[trigger] prefix[w].0 == out_id@;
                            assert(w == q);
                            assert(conflict_error(next) is Some);
                            let t1 = lemma_active_prefix(cs, ci as int + 1);
                            let rest = outs.skip(oi + 1) + t1;
                            assert(outs.take(oi + 1) + outs.skip(oi + 1) =~= outs);
                            assert(active_outputs(cs) =~= next + rest);
                            lemma_conflict_persists(next, rest);
                        }
                        let mut msg = concat3("A saída '", out_id.as_str(), "' não pode ser controlada ao mesmo tempo por '");
                        msg.append(owned[j].value.as_str());
                        msg.append("' e '");
                        msg.append(controller.name.as_str());
                        msg.append("'");
                        return Err(AppError::InvalidArgument(msg));
                    },
                    None => {
                        assert forall|q: int| 0 <= q < prefix.len() implies #[trigger] prefix[q].0 != out_id@ by {
                            assert(owned.deep_view()[q].0 == prefix[q].0);
                        }
                    },
                }
                let ghost owned0 = owned.deep_view();
                assert(outs[oi as int] == (out_id@, trimmed(c.name), c.name));
                owned.push(Keyed { key: out_id.clone(), value: owner.clone() });
                assert(owned.deep_view() =~= owned0.push((out_id@, owner@)));
                assert(owned.deep_view() =~= next.map_values(|e: (Seq<char>, Seq<char>, Seq<char>)| (e.0, e.1)));
                oi += 1;
            }
            assert(outs.take(outs.len() as int) =~= outs);
        }
        ci += 1;
    }
    assert(cs.take(cs.len() as int) =~= cs);
    Ok(())
}

/// The error, if any, of one variable of a plant request: a blank name, a range
/// whose minimum is not below its maximum, or a setpoint outside the range.
pub open spec fn variable_error(var: CreatePlantVariableRequest) -> Option<ErrorView> {
    if blank(var.name@) {
        Some(ErrorView::InvalidArgument("Nome da variável é obrigatório"@))
    } else if f64_le(var.pv_max, var.pv_min) {
        Some(ErrorView::InvalidArgument("pv_min deve ser menor que pv_max"@))
    } else if f64_lt(var.setpoint, var.pv_min) || f64_lt(var.pv_max, var.setpoint) {
        Some(ErrorView::InvalidArgument("setpoint deve estar entre pv_min e pv_max"@))
    } else {
        None
    }
}

/// Checks one variable of a plant request.
pub fn validate_variable(var: &CreatePlantVariableRequest) -> (r: AppResult<()>)
    ensures
        match variable_error(*var) {
            Some(e) => r matches Err(x) && x@ == e,
            None => r is Ok,
        },
{
    if is_blank(var.name.as_str()) {
        return Err(invalid_argument("Nome da variável é obrigatório"));
    }
    if le_bits(var.pv_max, var.pv_min) {
        return Err(invalid_argument("pv_min deve ser menor que pv_max"));
    }
    if lt_bits(var.setpoint, var.pv_min) || lt_bits(var.pv_max, var.setpoint) {
        return Err(invalid_argument("setpoint deve estar entre pv_min e pv_max"));
    }
    Ok(())
}

/// The error reported for the variable at position `i`.
pub open spec fn indexed_variable_error(i: int, var: CreatePlantVariableRequest) -> Option<ErrorView> {
    match variable_error(var) {
        Some(e) => Some(ErrorView::InvalidArgument("Variável "@ + decimal_of((i + 1) as nat) + " inválida: "@ + error_display(e))),
        None => None,
    }
}

/// The error reported for the controller at position `i`.
pub open spec fn indexed_controller_error(i: int, c: ControllerRequestView, types: Seq<VariableType>, plugins: PluginStoreView) -> Option<ErrorView> {
    match controller_error(c, types, plugins) {
        Some(e) => Some(ErrorView::InvalidArgument("Controlador "@ + decimal_of((i + 1) as nat) + " inválido: "@ + error_display(e))),
        None => None,
    }
}

/// The errors of the variables, position by position.
pub open spec fn variable_errors(variables: Seq<CreatePlantVariableRequest>) -> Seq<Option<ErrorView>> {
    Seq::new(variables.len(), |i: int| indexed_variable_error(i, variables[i]))
}

/// The errors of the controllers, position by position.
pub open spec fn controller_errors(controllers: Seq<ControllerRequestView>, types: Seq<VariableType>, plugins: PluginStoreView) -> Seq<Option<ErrorView>> {
    Seq::new(controllers.len(), |i: int| indexed_controller_error(i, controllers[i], types, plugins))
}

/// The error, if any, with which a plant request is refused. `current_id` is the
/// plant being changed, absent for a new plant.
pub open spec fn payload_error(
    store: PlantStoreView,
    plugins: PluginStoreView,
    current_id: Option<Seq<char>>,
    name: Seq<char>,
    sample_time_ms: u64,
    variables: Seq<CreatePlantVariableRequest>,
    driver_plugin_id: Seq<char>,
    controllers: Seq<ControllerRequestView>,
) -> Option<ErrorView> {
    let key = name_key_of(name);
    let duplicate = key.len() > 0 && store.names.contains_key(key) && match current_id {
        Some(id) => store.names[key] != id,
        None => true,
    };
    if blank(name) {
        Some(plant_name_required())
    } else if duplicate {
        Some(ErrorView::InvalidArgument("Planta com NOME '"@ + name + "' já existe"@))
    } else if variables.len() == 0 {
        Some(ErrorView::InvalidArgument("Pelo menos uma variável deve ser definida"@))
    } else if sample_time_ms == 0 {
        Some(ErrorView::InvalidArgument("Tempo de amostragem deve ser maior que 0 ms"@))
    } else if blank(driver_plugin_id) {
        Some(ErrorView::InvalidArgument("Um driver de comunicação é obrigatório"@))
    } else if spec_resolve_plugin(plugins, driver_plugin_id, PluginType::Driver) is Err {
        Some(spec_resolve_plugin(plugins, driver_plugin_id, PluginType::Driver)->Err_0)
    } else if first_some(variable_errors(variables)) is Some {
        first_some(variable_errors(variables))
    } else {
        first_some(controller_errors(controllers, variable_types(variables), plugins))
    }
}

/// Checks a request to create (`current_id` absent) or change a plant.
#[verifier::loop_isolation(false)]
pub fn validate_payload(
    current_id: Option<&str>,
    name: &str,
    sample_time_ms: u64,
    variables: &Vec<CreatePlantVariableRequest>,
    driver: &CreatePlantDriverRequest,
    controllers: &Vec<CreatePlantControllerRequest>,
    store: &PlantStore,
    plugins: &PluginStore,
) -> (r: AppResult<()>)
    requires
        store.wf(),
        plugins.wf(),
    ensures
        match payload_error(store@, plugins@, match current_id { Some(id) => Some(id@), None => None }, name@,
            sample_time_ms, variables@, driver.plugin_id@, controllers.deep_view()) {
            Some(e) => r matches Err(x) && x@ == e,
            None => r is Ok,
        },
{
    if is_blank(name) {
        return Err(invalid_argument("Nome da planta é obrigatório"));
    }
    let has_duplicate_name = match current_id {
        Some(id) => store.exists_by_name_except(id, name),
        None => store.exists_by_name(name),
    };
    if has_duplicate_name {
        return Err(AppError::InvalidArgument(concat3("Planta com NOME '", name, "' já existe")));
    }
    if variables.len() == 0 {
        return Err(invalid_argument("Pelo menos uma variável deve ser definida"));
    }
    if sample_time_ms == 0 {
        return Err(invalid_argument("Tempo de amostragem deve ser maior que 0 ms"));
    }
    if is_blank(driver.plugin_id.as_str()) {
        return Err(invalid_argument("Um driver de comunicação é obrigatório"));
    }
    resolve_plugin(plugins, driver.plugin_id.as_str(), PluginType::Driver)?;
    let ghost verrs = variable_errors(variables@);
    let mut i: usize = 0;
    while i < variables.len()
        invariant
            i <= variables.len(),
            forall|j: int| 0 <= j < i ==> (#[trigger] verrs[j]) is None,
        decreases variables.len() - i,
    {
        match validate_variable(&variables[i]) {
            Ok(()) => {},
            Err(error) => {
                proof { lemma_first_some_at(verrs, i as int); }
                let shown = error.display_text();
                let number = format_decimal(i + 1);
                let mut msg = concat3("Variável ", number.as_str(), " inválida: ");
                msg.append(shown.as_str());
                return Err(AppError::InvalidArgument(msg));
            },
        }
        i += 1;
    }
    proof { lemma_first_some_none(verrs); }
    let ghost cerrs = controller_errors(controllers.deep_view(), variable_types(variables@), plugins@);
    let mut i: usize = 0;
    while i < controllers.len()
        invariant
            i <= controllers.len(),
            forall|j: int| 0 <= j < i ==> (#[trigger] cerrs[j]) is None,
        decreases controllers.len() - i,
    {
        match validate_controller(&controllers[i], variables, plugins) {
            Ok(()) => {},
            Err(error) => {
                proof { lemma_first_some_at(cerrs, i as int); }
                let shown = error.display_text();
                let number = format_decimal(i + 1);
                let mut msg = concat3("Controlador ", number.as_str(), " inválido: ");
                msg.append(shown.as_str());
                return Err(AppError::InvalidArgument(msg));
            },
        }
        i += 1;
    }
    proof { lemma_first_some_none(cerrs); }
    Ok(())
}

} // verus!
