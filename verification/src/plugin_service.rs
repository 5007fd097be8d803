//! Plugin metadata rules: entry classes, optional texts, request validation and
//! the registries built from requests.
use vstd::prelude::*;
use crate::error::{AppError, AppResult, ErrorView, concat2, concat3, invalid_argument};
use crate::ids::random_uuid;
use crate::models::{
    CreatePluginRequest, PluginRegistry, PluginRuntime, PluginType, PluginView, UpdatePluginRequest,
};
use crate::plugin_store::{PluginStore, PluginStoreView, plugin_name_required, plugin_name_taken};
use crate::text::{
    ascii_alnum, ascii_alpha, ascii_lower, ascii_space, ascii_upper, blank, is_ascii_alnum,
    is_ascii_alpha, is_ascii_space, is_blank, name_key_of, to_ascii_lower, to_ascii_upper, to_chars,
    trim, trimmed,
};

verus! {

broadcast use vstd::std_specs::vec::group_vec_axioms;

/// A Python class name: an ASCII letter or `_`, then ASCII letters, digits or `_`.
pub open spec fn valid_class_name(s: Seq<char>) -> bool {
    &&& s.len() > 0
    &&& (ascii_alpha(s[0]) || s[0] == '_')
    &&& forall|i: int| 1 <= i < s.len() ==> ascii_alnum(#[trigger] s[i]) || s[i] == '_'
}

/// The class name spelled by the words of `s`: characters other than ASCII letters,
/// digits, white space and `_` are dropped, ASCII white space and `_` separate
/// words, and each word is written with its first letter upper case and the rest
/// lower case. `at_start` says whether the next kept character begins a word.
pub open spec fn class_name_chars(s: Seq<char>, at_start: bool) -> Seq<char>
    decreases s.len(),
{
    if s.len() == 0 {
        Seq::empty()
    } else {
        let c = s[0];
        if ascii_space(c) || c == '_' {
            class_name_chars(s.drop_first(), true)
        } else if ascii_alnum(c) {
            seq![if at_start { ascii_upper(c) } else { ascii_lower(c) }] + class_name_chars(s.drop_first(), false)
        } else {
            class_name_chars(s.drop_first(), at_start)
        }
    }
}

/// The class a plugin gets when none is given: the words of its name, or
/// `MyDriver` / `MyController` when the name has none.
pub open spec fn default_class_of(name: Seq<char>, plugin_type: PluginType) -> Seq<char> {
    let words = class_name_chars(name, true);
    if words.len() == 0 {
        match plugin_type {
            PluginType::Driver => "MyDriver"@,
            PluginType::Controller => "MyController"@,
        }
    } else {
        words
    }
}

/// An optional text, trimmed, with blank texts dropped.
pub open spec fn normalized_text(v: Option<Seq<char>>) -> Option<Seq<char>> {
    match v {
        Some(s) => if blank(s) { None } else { Some(trimmed(s)) },
        None => None,
    }
}

/// The entry class a plugin is given: the requested one when, trimmed, it is a
/// valid class name, else the default for its name and kind.
pub open spec fn resolved_class(entry_class: Option<Seq<char>>, name: Seq<char>, plugin_type: PluginType) -> Seq<char> {
    match normalized_text(entry_class) {
        Some(c) => if valid_class_name(c) { c } else { default_class_of(name, plugin_type) },
        None => default_class_of(name, plugin_type),
    }
}

pub fn is_valid_entry_class(value: &str) -> (r: bool)
    ensures
        r == valid_class_name(value@),
{
    let v = to_chars(value);
    if v.len() == 0 {
        return false;
    }
    if !(is_ascii_alpha(v[0]) || v[0] == '_') {
        return false;
    }
    let mut i: usize = 1;
    while i < v.len()
        invariant
            1 <= i <= v.len(),
            v@ == value@,
            forall|k: int| 1 <= k < i ==> ascii_alnum(#[trigger] v@[k]) || v@[k] == '_',
        decreases v.len() - i,
    {
        if !(is_ascii_alnum(v[i]) || v[i] == '_') {
            return false;
        }
        i += 1;
    }
    true
}

proof fn lemma_class_name_step(s: Seq<char>, i: int, at: bool)
    requires
        0 <= i < s.len(),
    ensures
        class_name_chars(s.subrange(i, s.len() as int), at) == {
            let c = s[i];
            let rest = s.subrange(i + 1, s.len() as int);
            if ascii_space(c) || c == '_' {
                class_name_chars(rest, true)
            } else if ascii_alnum(c) {
                seq![if at { ascii_upper(c) } else { ascii_lower(c) }] + class_name_chars(rest, false)
            } else {
                class_name_chars(rest, at)
            }
        },
{
    assert(s.subrange(i, s.len() as int).drop_first() =~= s.subrange(i + 1, s.len() as int));
}

/// The default class name for a plugin named `plugin_name`.
pub fn default_entry_class_for(plugin_name: &str, plugin_type: PluginType) -> (r: String)
    ensures
        r@ == default_class_of(plugin_name@, plugin_type),
{
    let v = to_chars(plugin_name);
    let ghost s = v@;
    let mut out = String::new();
    let mut at_start = true;
    let mut i: usize = 0;
    assert(s.subrange(0, s.len() as int) =~= s);
    while i < v.len()
        invariant
            i <= v.len(),
            s == v@,
            out@ + class_name_chars(s.subrange(i as int, s.len() as int), at_start) == class_name_chars(s, true),
        decreases v.len() - i,
    {
        let c = v[i];
        proof { lemma_class_name_step(s, i as int, at_start); }
        if is_ascii_space(c) || c == '_' {
            at_start = true;
        } else if is_ascii_alnum(c) {
            let ghost before = out@;
            if at_start {
                out.push(to_ascii_upper(c));
            } else {
                out.push(to_ascii_lower(c));
            }
            at_start = false;
            assert(out@ + class_name_chars(s.subrange(i + 1, s.len() as int), false)
                =~= before + (seq![out@.last()] + class_name_chars(s.subrange(i + 1, s.len() as int), false)));
        }
        i += 1;
    }
    assert(s.subrange(s.len() as int, s.len() as int) =~= Seq::<char>::empty());
    if out.as_str().is_empty() {
        match plugin_type {
            PluginType::Driver => String::from_str("MyDriver"),
            PluginType::Controller => String::from_str("MyController"),
        }
    } else {
        out
    }
}

/// The text, trimmed, unless it is blank.
pub fn normalize_optional_text(value: Option<String>) -> (r: Option<String>)
    ensures
        r.deep_view() == normalized_text(value.deep_view()),
{
    match value {
        Some(raw) => {
            if is_blank(raw.as_str()) {
                None
            } else {
                Some(trim(raw.as_str()))
            }
        },
        None => None,
    }
}

/// The source code, trimmed, unless it is absent or blank.
pub fn normalize_source_code(source_code: Option<&str>) -> (r: Option<String>)
    ensures
        r.deep_view() == normalized_text(match source_code {
            Some(s) => Some(s@),
            None => None,
        }),
{
    match source_code {
        Some(value) => {
            if is_blank(value) {
                None
            } else {
                Some(trim(value))
            }
        },
        None => None,
    }
}

/// The entry class a new or updated plugin is given.
pub fn resolve_entry_class(entry_class: Option<&str>, plugin_name: &str, plugin_type: PluginType) -> (r: String)
    ensures
        r@ == resolved_class(
            match entry_class {
                Some(s) => Some(s@),
                None => None,
            },
            plugin_name@,
            plugin_type,
        ),
{
    match normalize_source_code(entry_class) {
        Some(value) => {
            if is_valid_entry_class(value.as_str()) {
                value
            } else {
                default_entry_class_for(plugin_name, plugin_type)
            }
        },
        None => default_entry_class_for(plugin_name, plugin_type),
    }
}

/// A text parameter as an optional view.
pub open spec fn opt_view(v: Option<&str>) -> Option<Seq<char>> {
    match v {
        Some(s) => Some(s@),
        None => None,
    }
}

/// The error, if any, with which a plugin request is refused. `current_id` is the
/// plugin being changed, absent for a new plugin.
pub open spec fn plugin_request_error(
    store: PluginStoreView,
    current_id: Option<Seq<char>>,
    name: Seq<char>,
    runtime: PluginRuntime,
    entry_class: Option<Seq<char>>,
    source_file: Option<Seq<char>>,
    source_code: Option<Seq<char>>,
) -> Option<ErrorView> {
    let key = name_key_of(name);
    let duplicate = key.len() > 0 && store.names.contains_key(key) && match current_id {
        Some(id) => store.names[key] != id,
        None => true,
    };
    if blank(name) {
        Some(plugin_name_required())
    } else if duplicate {
        Some(plugin_name_taken(name))
    } else if runtime != PluginRuntime::Python {
        Some(ErrorView::InvalidArgument("Somente plugins Python podem ser criados no momento"@))
    } else if normalized_text(entry_class) matches Some(c) && !valid_class_name(c) {
        Some(ErrorView::InvalidArgument("Classe principal do plugin é inválida"@))
    } else if source_code matches Some(code) && blank(code) {
        Some(ErrorView::InvalidArgument("Código fonte Python é obrigatório"@))
    } else if source_file matches Some(file) && blank(file) {
        Some(ErrorView::InvalidArgument("Nome do arquivo fonte inválido"@))
    } else {
        None
    }
}

/// Checks a request to create (`current_id` absent) or change a plugin.
pub fn validate_request(
    store: &PluginStore,
    current_id: Option<&str>,
    name: &str,
    runtime: PluginRuntime,
    entry_class: Option<&str>,
    source_file: Option<&str>,
    source_code: Option<&str>,
) -> (r: AppResult<()>)
    requires
        store.wf(),
    ensures
        match plugin_request_error(store@, opt_view(current_id), name@, runtime, opt_view(entry_class),
            opt_view(source_file), opt_view(source_code)) {
            Some(e) => r matches Err(x) && x@ == e,
            None => r is Ok,
        },
{
    if is_blank(name) {
        return Err(invalid_argument("Nome do plugin é obrigatório"));
    }
    let has_duplicate_name = match current_id {
        Some(id) => store.exists_by_name_except(id, name),
        None => store.exists_by_name(name),
    };
    if has_duplicate_name {
        let shown = trim(name);
        return Err(AppError::InvalidArgument(concat3("Plugin com nome '", shown.as_str(), "' já existe")));
    }
    match runtime {
        PluginRuntime::Python => {},
        _ => return Err(invalid_argument("Somente plugins Python podem ser criados no momento")),
    }
    match normalize_source_code(entry_class) {
        Some(c) => {
            if !is_valid_entry_class(c.as_str()) {
                return Err(invalid_argument("Classe principal do plugin é inválida"));
            }
        },
        None => {},
    }
    match source_code {
        Some(code) => {
            if is_blank(code) {
                return Err(invalid_argument("Código fonte Python é obrigatório"));
            }
        },
        None => {},
    }
    match source_file {
        Some(file) => {
            if is_blank(file) {
                return Err(invalid_argument("Nome do arquivo fonte inválido"));
            }
        },
        None => {},
    }
    Ok(())
}

/// The registry a creation request gives, under the id `id`, its source kept in
/// the file `file`.
pub open spec fn created_plugin(req: CreatePluginRequest, id: Seq<char>, file: Seq<char>) -> PluginView {
    PluginView {
        id,
        name: trimmed(req.name@),
        plugin_type: req.plugin_type,
        runtime: req.runtime,
        entry_class: resolved_class(req.entry_class.deep_view(), req.name@, req.plugin_type),
        schema: req.schema.deep_view(),
        source_file: Some(file),
        source_code: None,
        dependencies: req.dependencies.deep_view(),
        description: normalized_text(req.description.deep_view()),
        version: normalized_text(req.version.deep_view()),
        author: normalized_text(req.author.deep_view()),
    }
}

/// The registry an update request gives, its kind kept as `plugin_type`.
pub open spec fn updated_plugin(req: UpdatePluginRequest, plugin_type: PluginType, file: Seq<char>) -> PluginView {
    PluginView {
        id: req.id@,
        name: trimmed(req.name@),
        plugin_type,
        runtime: req.runtime,
        entry_class: resolved_class(req.entry_class.deep_view(), req.name@, plugin_type),
        schema: req.schema.deep_view(),
        source_file: Some(file),
        source_code: None,
        dependencies: req.dependencies.deep_view(),
        description: normalized_text(req.description.deep_view()),
        version: normalized_text(req.version.deep_view()),
        author: normalized_text(req.author.deep_view()),
    }
}

fn entry_class_arg(entry_class: &Option<String>) -> (r: Option<&str>)
    ensures
        opt_view(r) == entry_class.deep_view(),
{
    match entry_class {
        Some(c) => Some(c.as_str()),
        None => None,
    }
}

pub open spec fn source_code_required() -> ErrorView {
    ErrorView::InvalidArgument("Código fonte Python é obrigatório. Informe sourceCode ou use um source_file absoluto válido."@)
}

/// The source code of a new plugin, from the first of these that holds some:
/// the request's own code; the file the request names, when it is an absolute
/// path that exists (whose read error stops the creation); the plugin's source
/// already in the workspace. Each is trimmed; a blank one does not count.
pub open spec fn source_code_choice(
    request_code: Option<Seq<char>>,
    file_source: Option<Result<Seq<char>, ErrorView>>,
    workspace_source: Option<Seq<char>>,
) -> Result<Seq<char>, ErrorView> {
    match normalized_text(request_code) {
        Some(c) => Ok(c),
        None => match file_source {
            Some(Err(e)) => Err(e),
            _ => {
                let from_file = match file_source {
                    Some(Ok(c)) => normalized_text(Some(c)),
                    _ => None,
                };
                match from_file {
                    Some(c) => Ok(c),
                    None => match normalized_text(workspace_source) {
                        Some(c) => Ok(c),
                        None => Err(source_code_required()),
                    },
                }
            },
        },
    }
}

/// The source code of a new plugin. `file_source` is what reading the file the
/// request names gave, when that name is an absolute path that exists;
/// `workspace_source` is the plugin's source in the workspace, when it could be read.
pub fn resolve_source_code_for_create(
    source_code: Option<&str>,
    file_source: Option<AppResult<String>>,
    workspace_source: Option<String>,
) -> (r: AppResult<String>)
    ensures
        match source_code_choice(
            match source_code { Some(s) => Some(s@), None => None },
            match file_source { Some(Ok(c)) => Some(Ok(c@)), Some(Err(e)) => Some(Err(e@)), None => None },
            match workspace_source { Some(c) => Some(c@), None => None },
        ) {
            Ok(c) => r matches Ok(x) && x@ == c,
            Err(e) => r matches Err(x) && x@ == e,
        },
{
    if let Some(code) = normalize_source_code(source_code) {
        return Ok(code);
    }
    match file_source {
        Some(Err(e)) => return Err(e),
        Some(Ok(code)) => {
            if let Some(normalized) = normalize_source_code(Some(code.as_str())) {
                return Ok(normalized);
            }
        },
        None => {},
    }
    if let Some(code) = workspace_source {
        if let Some(normalized) = normalize_source_code(Some(code.as_str())) {
            return Ok(normalized);
        }
    }
    Err(invalid_argument("Código fonte Python é obrigatório. Informe sourceCode ou use um source_file absoluto válido."))
}

/// The registry of a new plugin: a fresh id `plugin_<uuid>`.
pub fn build_plugin(request: CreatePluginRequest, source_file_name: &str) -> (r: PluginRegistry)
    ensures
        exists|u: Seq<char>| u.len() == 36 && r@ == created_plugin(request, "plugin_"@ + u, source_file_name@),
{
    let ghost req = request;
    let uuid = random_uuid();
    let id = concat2("plugin_", uuid.as_str());
    let entry_class = resolve_entry_class(entry_class_arg(&request.entry_class), request.name.as_str(), request.plugin_type);
    let r = PluginRegistry {
        id,
        name: trim(request.name.as_str()),
        plugin_type: request.plugin_type,
        runtime: request.runtime,
        entry_class,
        schema: request.schema,
        source_file: Some(String::from_str(source_file_name)),
        source_code: None,
        dependencies: request.dependencies,
        description: normalize_optional_text(request.description),
        version: normalize_optional_text(request.version),
        author: normalize_optional_text(request.author),
    };
    assert(r@ =~= created_plugin(req, "plugin_"@ + uuid@, source_file_name@));
    r
}

/// The registry that replaces a plugin on update; its kind stays `plugin_type`.
pub fn build_updated_plugin(request: UpdatePluginRequest, plugin_type: PluginType, source_file_name: &str) -> (r: PluginRegistry)
    ensures
        r@ == updated_plugin(request, plugin_type, source_file_name@),
{
    let ghost req = request;
    let entry_class = resolve_entry_class(entry_class_arg(&request.entry_class), request.name.as_str(), plugin_type);
    let name = trim(request.name.as_str());
    let r = PluginRegistry {
        id: request.id,
        name,
        plugin_type,
        runtime: request.runtime,
        entry_class,
        schema: request.schema,
        source_file: Some(String::from_str(source_file_name)),
        source_code: None,
        dependencies: request.dependencies,
        description: normalize_optional_text(request.description),
        version: normalize_optional_text(request.version),
        author: normalize_optional_text(request.author),
    };
    assert(r@ =~= updated_plugin(req, plugin_type, source_file_name@));
    r
}

/// The file the source of every plugin is saved to.
pub const PYTHON_SOURCE_FILE_NAME: &'static str = "main.py";

/// What an accepted update request becomes: the registry that replaces the
/// stored one, and the name and kind that the stored one had.
pub struct PluginUpdate {
    pub next: PluginRegistry,
    pub previous_name: String,
    pub previous_type: PluginType,
}

pub struct PluginService;

impl PluginService {
    /// Checks a creation request and builds the registry of the new plugin, whose
    /// source is kept in `main.py`. The registry is not stored.
    pub fn registry_for_create(store: &PluginStore, request: CreatePluginRequest) -> (r: AppResult<PluginRegistry>)
        requires
            store.wf(),
        ensures
            match plugin_request_error(store@, None, request.name@, request.runtime,
                request.entry_class.deep_view(), request.source_file.deep_view(), request.source_code.deep_view()) {
                Some(e) => r matches Err(x) && x@ == e,
                None => r matches Ok(p) && exists|u: Seq<char>| u.len() == 36
                    && p@ == created_plugin(request, "plugin_"@ + u, "main.py"@),
            },
    {
        validate_request(
            store,
            None,
            request.name.as_str(),
            request.runtime,
            entry_class_arg(&request.entry_class),
            entry_class_arg(&request.source_file),
            entry_class_arg(&request.source_code),
        )?;
        Ok(build_plugin(request, PYTHON_SOURCE_FILE_NAME))
    }

    /// Checks an update request against the stored plugin: the request must be
    /// valid, the plugin must exist and its kind must stay the same.
    pub fn plan_update(store: &PluginStore, request: UpdatePluginRequest) -> (r: AppResult<PluginUpdate>)
        requires
            store.wf(),
        ensures
            match plugin_request_error(store@, Some(request.id@), request.name@, request.runtime,
                request.entry_class.deep_view(), request.source_file.deep_view(), request.source_code.deep_view()) {
                Some(e) => r matches Err(x) && x@ == e,
                None => if !crate::keyed::has_key(store@.entries, request.id@) {
                    r matches Err(x) && x@ == crate::plugin_store::plugin_not_found(request.id@)
                } else {
                    let stored = store@.registries()[request.id@];
                    if request.plugin_type != stored.plugin_type {
                        r matches Err(x) && x@ == ErrorView::InvalidArgument("Tipo do plugin não pode ser alterado"@)
                    } else {
                        r matches Ok(plan) && plan.previous_name@ == stored.name
                            && plan.previous_type == stored.plugin_type
                            && plan.next@ == updated_plugin(request, stored.plugin_type, "main.py"@)
                    }
                },
            },
    {
        validate_request(
            store,
            Some(request.id.as_str()),
            request.name.as_str(),
            request.runtime,
            entry_class_arg(&request.entry_class),
            entry_class_arg(&request.source_file),
            entry_class_arg(&request.source_code),
        )?;
        let existing = store.get(request.id.as_str())?;
        if request.plugin_type != existing.plugin_type {
            return Err(invalid_argument("Tipo do plugin não pode ser alterado"));
        }
        let previous_type = existing.plugin_type;
        let next = build_updated_plugin(request, previous_type, PYTHON_SOURCE_FILE_NAME);
        Ok(PluginUpdate { next, previous_name: existing.name, previous_type })
    }

    /// All stored plugins.
    pub fn list(store: &PluginStore) -> (r: Vec<PluginRegistry>)
        ensures
            r.deep_view() == store@.listed(),
    {
        store.list()
    }

    /// The stored plugins of one kind.
    pub fn list_by_type(store: &PluginStore, plugin_type: PluginType) -> (r: Vec<PluginRegistry>)
        ensures
            r.deep_view() == crate::plugin_store::plugins_of_type(store@.listed(), plugin_type),
    {
        store.list_by_type(plugin_type)
    }
}

/// Brings the entry class of a loaded Python plugin in line with the rules: a
/// valid class is kept trimmed; any other is replaced by the default for the
/// plugin's name. Returns whether the registry on disk must be rewritten.
pub fn ensure_runtime_metadata(plugin: &mut PluginRegistry) -> (rewrite: bool)
    ensures
        old(plugin).runtime != PluginRuntime::Python ==> !rewrite && final(plugin)@ == old(plugin)@,
        old(plugin).runtime == PluginRuntime::Python ==> {
            let c = trimmed(old(plugin).entry_class@);
            let keep = c.len() > 0 && valid_class_name(c);
            &&& rewrite == !keep
            &&& final(plugin)@ == PluginView {
                entry_class: if keep { c } else { default_class_of(old(plugin).name@, old(plugin).plugin_type) },
                ..old(plugin)@
            }
        },
{
    match plugin.runtime {
        PluginRuntime::Python => {},
        _ => return false,
    }
    let normalized = trim(plugin.entry_class.as_str());
    if !normalized.as_str().is_empty() && is_valid_entry_class(normalized.as_str()) {
        plugin.entry_class = normalized;
        return false;
    }
    plugin.entry_class = default_entry_class_for(plugin.name.as_str(), plugin.plugin_type);
    true
}

} // verus!
