//! Where the workspace keeps plugins, plants, environments and runtimes, and
//! which names may become a directory in it.
//!
//! A path is given as the list of its components, starting at the user's
//! documents directory: joined in order they name the directory.
use vstd::prelude::*;
use crate::error::{AppError, AppResult, ErrorView, concat3};
use crate::models::PluginType;
use crate::text::{blank, is_blank, to_chars, trim, trimmed};

verus! {

broadcast use vstd::std_specs::vec::group_vec_axioms;

/// The directory of the workspace, under the documents directory.
pub const APP_WORKSPACE_DIR: &'static str = "Senamby/workspace";
/// The directory of the driver plugins.
pub const DRIVERS_DIR: &'static str = "drivers";
/// The directory of the controller plugins.
pub const CONTROLLERS_DIR: &'static str = "controllers";
/// The directory of the plants.
pub const PLANTS_DIR: &'static str = "plants";
/// The directory of the Python environments.
pub const ENVS_DIR: &'static str = "envs";
/// The directory of the runtimes.
pub const RUNTIMES_DIR: &'static str = "runtimes";
/// The file that describes a plugin or a plant.
pub const REGISTRY_FILE: &'static str = "registry.json";
/// The source file of a plugin.
pub const SOURCE_FILE: &'static str = "main.py";

/// The name of an entity as it is used for a directory: trimmed, unless nothing
/// would be left.
pub open spec fn normalized_entity_name(name: Seq<char>) -> Seq<char> {
    if blank(name) { name } else { trimmed(name) }
}

/// The name of an entity as it is used for a directory.
pub fn normalize_entity_name(name: &str) -> (r: String)
    ensures
        r@ == normalized_entity_name(name@),
{
    if is_blank(name) { String::from_str(name) } else { trim(name) }
}

/// The error for a name that names nothing.
pub open spec fn empty_name_error(entity: Seq<char>) -> ErrorView {
    ErrorView::InvalidArgument("Nome de "@ + entity + " não pode ser vazio"@)
}

/// The name of an entity, unless it is empty.
pub fn ensure_non_empty_name(name: &str, entity: &str) -> (r: AppResult<String>)
    ensures
        normalized_entity_name(name@).len() == 0 ==> (r matches Err(e) && e@ == empty_name_error(entity@)),
        normalized_entity_name(name@).len() > 0 ==> (r matches Ok(n) && n@ == normalized_entity_name(name@)),
{
    let normalized = normalize_entity_name(name);
    if normalized.as_str().is_empty() {
        return Err(AppError::InvalidArgument(concat3("Nome de ", entity, " não pode ser vazio")));
    }
    Ok(normalized)
}

/// Whether `c` is a control character: Unicode's category Cc, the ranges
/// U+0000 to U+001F and U+007F to U+009F.
pub open spec fn control_char(c: char) -> bool {
    (c as u32) <= 0x1f || (0x7f <= (c as u32) && (c as u32) <= 0x9f)
}

/// Whether a name is taken as an absolute path: it starts at the root.
pub open spec fn absolute_path(s: Seq<char>) -> bool {
    s.len() > 0 && s[0] == '/'
}

/// A name with no separator is one component of a path; `.` and `..` are the
/// components that do not name a directory of their own.
pub open spec fn special_component(s: Seq<char>) -> bool {
    s == "."@ || s == ".."@
}

/// The name an entity's directory gets, or why the name cannot be one.
pub open spec fn workspace_component(name: Seq<char>, entity: Seq<char>) -> Result<Seq<char>, ErrorView> {
    let n = normalized_entity_name(name);
    if n.len() == 0 {
        Err(empty_name_error(entity))
    } else if absolute_path(n) {
        Err(ErrorView::InvalidArgument("Nome de "@ + entity + " não pode ser caminho absoluto"@))
    } else if n.contains('/') || n.contains('\\') {
        Err(ErrorView::InvalidArgument("Nome de "@ + entity + " não pode conter separadores de diretório"@))
    } else if exists|i: int| 0 <= i < n.len() && control_char(#[trigger] n[i]) {
        Err(ErrorView::InvalidArgument("Nome de "@ + entity + " contém caracteres inválidos"@))
    } else if special_component(n) {
        Err(ErrorView::InvalidArgument("Nome de "@ + entity + " contém componentes de caminho inválidos"@))
    } else {
        Ok(n)
    }
}

/// The name an entity's directory gets: refused when empty, absolute, holding a
/// separator or a control character, or when it is `.` or `..`.
pub fn ensure_safe_workspace_component(name: &str, entity: &str) -> (r: AppResult<String>)
    ensures
        match workspace_component(name@, entity@) {
            Ok(n) => r matches Ok(x) && x@ == n,
            Err(e) => r matches Err(x) && x@ == e,
        },
{
    let normalized = ensure_non_empty_name(name, entity)?;
    let chars = to_chars(normalized.as_str());
    if chars[0] == '/' {
        return Err(AppError::InvalidArgument(concat3("Nome de ", entity, " não pode ser caminho absoluto")));
    }
    let mut i: usize = 0;
    let mut separator = false;
    let mut control = false;
    while i < chars.len()
        invariant
            i <= chars.len(),
            separator == exists|k: int| 0 <= k < i && (chars@[k] == '/' || chars@[k] == '\\'),
            control == exists|k: int| 0 <= k < i && control_char(#[trigger] chars@[k]),
        decreases chars.len() - i,
    {
        let c = chars[i];
        if c == '/' || c == '\\' {
            separator = true;
        }
        let code = c as u32;
        if code <= 0x1f || (0x7f <= code && code <= 0x9f) {
            control = true;
        }
        proof {
            if c == '/' || c == '\\' {
                assert(chars@[i as int] == c);
            }
        }
        i += 1;
    }
    proof {
        let n = normalized@;
        if n.contains('/') {
            let k = choose|k: int| 0 <= k < n.len() && n[k] == '/';
            assert(chars@[k] == '/');
        }
        if n.contains('\\') {
            let k = choose|k: int| 0 <= k < n.len() && n[k] == '\\';
            assert(chars@[k] == '\\');
        }
    }
    if separator {
        return Err(AppError::InvalidArgument(concat3("Nome de ", entity, " não pode conter separadores de diretório")));
    }
    if control {
        return Err(AppError::InvalidArgument(concat3("Nome de ", entity, " contém caracteres inválidos")));
    }
    proof {
        reveal_strlit(".");
        reveal_strlit("..");
    }
    let special = (chars.len() == 1 && chars[0] == '.') || (chars.len() == 2 && chars[0] == '.' && chars[1] == '.');
    assert(special == special_component(normalized@)) by {
        if chars.len() == 1 && chars[0] == '.' {
            assert(normalized@ =~= "."@);
        }
        if chars.len() == 2 && chars[0] == '.' && chars[1] == '.' {
            assert(normalized@ =~= ".."@);
        }
    }
    if special {
        return Err(AppError::InvalidArgument(concat3("Nome de ", entity, " contém componentes de caminho inválidos")));
    }
    Ok(normalized)
}

/// `dirs::document_dir`: the user's documents directory as the platform reports
/// it (on Linux `XDG_DOCUMENTS_DIR`), when there is one, written out as text (a
/// path that is not valid UTF-8 has its invalid parts replaced, as
/// `to_string_lossy` does). It depends on the environment of the process, so
/// nothing is stated of it.
#[verifier::external_body]
pub(crate) fn documents_directory() -> (r: Option<String>) {
    dirs::document_dir().map(|path| path.to_string_lossy().into_owned())
}

/// The error when the documents directory cannot be found.
pub open spec fn documents_missing() -> ErrorView {
    ErrorView::IoError("Não foi possível localizar o diretório Documentos"@)
}

/// Whether `p` is the workspace root: a documents directory, then the workspace directory.
pub open spec fn is_workspace_root(p: Seq<String>) -> bool {
    p.len() == 2 && p[1]@ == APP_WORKSPACE_DIR@
}

/// A path, or the error in its place, as components of text.
pub open spec fn path_view(r: AppResult<Vec<String>>) -> Result<Seq<Seq<char>>, ErrorView> {
    match r {
        Ok(p) => Ok(p.deep_view()),
        Err(e) => Err(e@),
    }
}

/// The workspace root under the documents directory `documents`, or the error
/// when there is none.
pub open spec fn root_outcome(documents: Option<Seq<char>>) -> Result<Seq<Seq<char>>, ErrorView> {
    match documents {
        Some(d) => Ok(seq![d, APP_WORKSPACE_DIR@]),
        None => Err(documents_missing()),
    }
}

/// The directory `dir` of the workspace under `documents`.
pub open spec fn directory_outcome(documents: Option<Seq<char>>, dir: Seq<char>) -> Result<Seq<Seq<char>>, ErrorView> {
    match root_outcome(documents) {
        Ok(root) => Ok(root.push(dir)),
        Err(e) => Err(e),
    }
}

/// The directory of the entity named `name` in the directory `dir` of the
/// workspace under `documents`: the documents directory is looked for first,
/// then the name is checked.
pub open spec fn entity_path_outcome(documents: Option<Seq<char>>, name: Seq<char>, entity: Seq<char>, dir: Seq<char>) -> Result<Seq<Seq<char>>, ErrorView> {
    match directory_outcome(documents, dir) {
        Err(e) => Err(e),
        Ok(d) => match workspace_component(name, entity) {
            Err(e) => Err(e),
            Ok(n) => Ok(d.push(n)),
        },
    }
}

/// The file `file` in the directory of the entity named `name`.
pub open spec fn entity_file_outcome(documents: Option<Seq<char>>, name: Seq<char>, entity: Seq<char>, dir: Seq<char>, file: Seq<char>) -> Result<Seq<Seq<char>>, ErrorView> {
    match entity_path_outcome(documents, name, entity, dir) {
        Err(e) => Err(e),
        Ok(d) => Ok(d.push(file)),
    }
}

/// The directory of a runtime: its id is checked first, then the documents
/// directory is looked for.
pub open spec fn runtime_path_outcome(documents: Option<Seq<char>>, runtime_id: Seq<char>) -> Result<Seq<Seq<char>>, ErrorView> {
    match workspace_component(runtime_id, "runtime"@) {
        Err(e) => Err(e),
        Ok(_) => entity_path_outcome(documents, runtime_id, "runtime"@, RUNTIMES_DIR@),
    }
}

/// The workspace root under the documents directory `documents`.
pub fn root_from(documents: Option<String>) -> (r: AppResult<Vec<String>>)
    ensures
        path_view(r) == root_outcome(documents.deep_view()),
{
    match documents {
        Some(documents) => {
            let mut p: Vec<String> = Vec::new();
            p.push(documents);
            p.push(String::from_str(APP_WORKSPACE_DIR));
            assert(p.deep_view() =~= root_outcome(Some(p@[0]@))->Ok_0);
            Ok(p)
        },
        None => Err(AppError::IoError(String::from_str("Não foi possível localizar o diretório Documentos"))),
    }
}

/// The directory `dir` of the workspace under the documents directory `documents`.
pub fn directory_in(documents: Option<String>, dir: &str) -> (r: AppResult<Vec<String>>)
    ensures
        path_view(r) == directory_outcome(documents.deep_view(), dir@),
{
    let mut root = root_from(documents)?;
    let ghost before = root.deep_view();
    root.push(String::from_str(dir));
    assert(root.deep_view() =~= before.push(dir@));
    Ok(root)
}

/// The directory of the entity named `name` in the directory `dir` of the
/// workspace under the documents directory `documents`.
pub fn entity_path_in(documents: Option<String>, name: &str, entity: &str, dir: &str) -> (r: AppResult<Vec<String>>)
    ensures
        path_view(r) == entity_path_outcome(documents.deep_view(), name@, entity@, dir@),
{
    let mut path = directory_in(documents, dir)?;
    let n = ensure_safe_workspace_component(name, entity)?;
    let ghost before = path.deep_view();
    path.push(n);
    assert(path.deep_view() =~= before.push(path@[before.len() as int]@));
    Ok(path)
}

/// The file `file` in the directory of the entity named `name`, under the
/// documents directory `documents`.
pub fn entity_file_in(documents: Option<String>, name: &str, entity: &str, dir: &str, file: &str) -> (r: AppResult<Vec<String>>)
    ensures
        path_view(r) == entity_file_outcome(documents.deep_view(), name@, entity@, dir@, file@),
{
    let mut path = entity_path_in(documents, name, entity, dir)?;
    let ghost before = path.deep_view();
    path.push(String::from_str(file));
    assert(path.deep_view() =~= before.push(file@));
    Ok(path)
}

/// The directory of the runtime `runtime_id` under the documents directory
/// `documents`.
pub fn runtime_directory_in(documents: Option<String>, runtime_id: &str) -> (r: AppResult<Vec<String>>)
    ensures
        path_view(r) == runtime_path_outcome(documents.deep_view(), runtime_id@),
{
    ensure_safe_workspace_component(runtime_id, "runtime")?;
    entity_path_in(documents, runtime_id, "runtime", RUNTIMES_DIR)
}

/// The root of the workspace, under the documents directory the platform
/// reports.
pub fn workspace_root() -> (r: AppResult<Vec<String>>)
    ensures
        exists|documents: Option<Seq<char>>| path_view(r) == root_outcome(documents),
        r matches Ok(p) ==> is_workspace_root(p@),
        r matches Err(e) ==> e@ == documents_missing(),
{
    let documents = documents_directory();
    let ghost d = documents.deep_view();
    let r = root_from(documents);
    proof {
        if r is Ok {
            lemma_components(r->Ok_0);
        }
    }
    r
}

/// The directory of the plugins of a kind.
pub open spec fn plugin_dir_name(plugin_type: PluginType) -> Seq<char> {
    match plugin_type {
        PluginType::Driver => DRIVERS_DIR@,
        PluginType::Controller => CONTROLLERS_DIR@,
    }
}

/// Whether `p` is a directory `dir`, then `entry`, in the workspace root.
pub open spec fn workspace_entry(p: Seq<String>, dir: Seq<char>, entry: Seq<char>) -> bool {
    p.len() == 4 && p[1]@ == APP_WORKSPACE_DIR@ && p[2]@ == dir && p[3]@ == entry
}

/// Whether `r` is a path in the workspace for the entity named `name`: the entry
/// `dir` of the workspace named after the entity, or the error that refuses the
/// name, or the error of a missing documents directory.
pub open spec fn entity_path_result(r: AppResult<Vec<String>>, name: Seq<char>, entity: Seq<char>, dir: Seq<char>) -> bool {
    match workspace_component(name, entity) {
        Ok(n) => match r {
            Ok(p) => workspace_entry(p@, dir, n),
            Err(e) => e@ == documents_missing(),
        },
        Err(err) => match r {
            Ok(_) => false,
            Err(e) => e@ == documents_missing() || e@ == err,
        },
    }
}

/// Whether `r` is the file `file` in the workspace directory of the entity
/// named `name`, or the error that refuses the name, or the error of a missing
/// documents directory.
pub open spec fn entity_file_result(r: AppResult<Vec<String>>, name: Seq<char>, entity: Seq<char>, dir: Seq<char>, file: Seq<char>) -> bool {
    match workspace_component(name, entity) {
        Ok(n) => match r {
            Ok(p) => p@.len() == 5 && workspace_entry(p@.take(4), dir, n) && p@[4]@ == file,
            Err(e) => e@ == documents_missing(),
        },
        Err(err) => match r {
            Ok(_) => false,
            Err(e) => e@ == documents_missing() || e@ == err,
        },
    }
}

/// The components of a path, as text, are those of its view.
pub proof fn lemma_components(p: Vec<String>)
    ensures
        p.deep_view().len() == p@.len(),
        forall|i: int| 0 <= i < p@.len() ==> #[trigger] p.deep_view()[i] == p@[i]@,
{
}

/// A path outcome for some documents directory gives an entry of the workspace.
pub proof fn lemma_entity_path_result(r: AppResult<Vec<String>>, documents: Option<Seq<char>>, name: Seq<char>, entity: Seq<char>, dir: Seq<char>)
    requires
        path_view(r) == entity_path_outcome(documents, name, entity, dir),
    ensures
        entity_path_result(r, name, entity, dir),
{
    if r is Ok {
        let p = r->Ok_0;
        lemma_components(p);
        let x = entity_path_outcome(documents, name, entity, dir)->Ok_0;
        assert(p.deep_view() == x);
        assert(p@[1]@ == x[1]);
        assert(p@[2]@ == x[2]);
        assert(p@[3]@ == x[3]);
    }
}

/// A file outcome for some documents directory gives a file of the workspace.
pub proof fn lemma_entity_file_result(r: AppResult<Vec<String>>, documents: Option<Seq<char>>, name: Seq<char>, entity: Seq<char>, dir: Seq<char>, file: Seq<char>)
    requires
        path_view(r) == entity_file_outcome(documents, name, entity, dir, file),
    ensures
        entity_file_result(r, name, entity, dir, file),
{
    if r is Ok {
        let p = r->Ok_0;
        lemma_components(p);
        let x = entity_file_outcome(documents, name, entity, dir, file)->Ok_0;
        assert(p.deep_view() == x);
        assert(p@.take(4)[1]@ == x[1]);
        assert(p@.take(4)[2]@ == x[2]);
        assert(p@.take(4)[3]@ == x[3]);
        assert(p@[4]@ == x[4]);
    }
}

/// The workspace service: the places of things in the workspace.
pub struct WorkspaceService;

impl WorkspaceService {
    /// The directory of the plugin named `plugin_name`, of kind `plugin_type`.
    pub fn plugin_directory(plugin_name: &str, plugin_type: PluginType) -> (r: AppResult<Vec<String>>)
        ensures
            exists|documents: Option<Seq<char>>| path_view(r)
                == entity_path_outcome(documents, plugin_name@, "plugin"@, plugin_dir_name(plugin_type)),
            entity_path_result(r, plugin_name@, "plugin"@, plugin_dir_name(plugin_type)),
    {
        let documents = documents_directory();
        let ghost d = documents.deep_view();
        let dir = match plugin_type {
            PluginType::Driver => DRIVERS_DIR,
            PluginType::Controller => CONTROLLERS_DIR,
        };
        assert(dir@ == plugin_dir_name(plugin_type));
        let r = entity_path_in(documents, plugin_name, "plugin", dir);
        assert(path_view(r) == entity_path_outcome(d, plugin_name@, "plugin"@, plugin_dir_name(plugin_type)));
        proof { lemma_entity_path_result(r, d, plugin_name@, "plugin"@, plugin_dir_name(plugin_type)); }
        r
    }

    /// The directory that holds the plugins of a kind.
    pub fn plugin_root_directory(plugin_type: PluginType) -> (r: AppResult<Vec<String>>)
        ensures
            exists|documents: Option<Seq<char>>| path_view(r) == directory_outcome(documents, plugin_dir_name(plugin_type)),
            r matches Ok(p) ==> p@.len() == 3 && p@[1]@ == APP_WORKSPACE_DIR@ && p@[2]@ == plugin_dir_name(plugin_type),
            r matches Err(e) ==> e@ == documents_missing(),
    {
        let documents = documents_directory();
        let ghost d = documents.deep_view();
        let dir = match plugin_type {
            PluginType::Driver => DRIVERS_DIR,
            PluginType::Controller => CONTROLLERS_DIR,
        };
        assert(dir@ == plugin_dir_name(plugin_type));
        let r = directory_in(documents, dir);
        assert(path_view(r) == directory_outcome(d, plugin_dir_name(plugin_type)));
        proof {
            if r is Ok {
                let p = r->Ok_0;
                lemma_components(p);
                let x = directory_outcome(d, plugin_dir_name(plugin_type))->Ok_0;
                assert(p.deep_view() == x);
                assert(p@[1]@ == x[1]);
                assert(p@[2]@ == x[2]);
            }
        }
        r
    }

    /// The source file of the plugin named `plugin_name`, of kind `plugin_type`.
    pub fn plugin_source_path(plugin_name: &str, plugin_type: PluginType) -> (r: AppResult<Vec<String>>)
        ensures
            exists|documents: Option<Seq<char>>| path_view(r)
                == entity_file_outcome(documents, plugin_name@, "plugin"@, plugin_dir_name(plugin_type), SOURCE_FILE@),
            entity_file_result(r, plugin_name@, "plugin"@, plugin_dir_name(plugin_type), SOURCE_FILE@),
    {
        let documents = documents_directory();
        let ghost d = documents.deep_view();
        let dir = match plugin_type {
            PluginType::Driver => DRIVERS_DIR,
            PluginType::Controller => CONTROLLERS_DIR,
        };
        assert(dir@ == plugin_dir_name(plugin_type));
        let r = entity_file_in(documents, plugin_name, "plugin", dir, SOURCE_FILE);
        assert(path_view(r) == entity_file_outcome(d, plugin_name@, "plugin"@, plugin_dir_name(plugin_type), SOURCE_FILE@));
        proof { lemma_entity_file_result(r, d, plugin_name@, "plugin"@, plugin_dir_name(plugin_type), SOURCE_FILE@); }
        r
    }

    /// The directory of the Python environment whose hash is `env_hash`.
    pub fn env_directory(env_hash: &str) -> (r: AppResult<Vec<String>>)
        ensures
            exists|documents: Option<Seq<char>>| path_view(r) == entity_path_outcome(documents, env_hash@, "ambiente"@, ENVS_DIR@),
            entity_path_result(r, env_hash@, "ambiente"@, ENVS_DIR@),
    {
        let documents = documents_directory();
        let ghost d = documents.deep_view();
        let r = entity_path_in(documents, env_hash, "ambiente", ENVS_DIR);
        assert(path_view(r) == entity_path_outcome(d, env_hash@, "ambiente"@, ENVS_DIR@));
        proof { lemma_entity_path_result(r, d, env_hash@, "ambiente"@, ENVS_DIR@); }
        r
    }

    /// The directory that holds the runtimes.
    pub fn runtime_root_directory() -> (r: AppResult<Vec<String>>)
        ensures
            exists|documents: Option<Seq<char>>| path_view(r) == directory_outcome(documents, RUNTIMES_DIR@),
            r matches Ok(p) ==> p@.len() == 3 && p@[1]@ == APP_WORKSPACE_DIR@ && p@[2]@ == RUNTIMES_DIR@,
            r matches Err(e) ==> e@ == documents_missing(),
    {
        let documents = documents_directory();
        let ghost d = documents.deep_view();
        let r = directory_in(documents, RUNTIMES_DIR);
        assert(path_view(r) == directory_outcome(d, RUNTIMES_DIR@));
        proof {
            if r is Ok {
                let p = r->Ok_0;
                lemma_components(p);
                let x = directory_outcome(d, RUNTIMES_DIR@)->Ok_0;
                assert(p.deep_view() == x);
                assert(p@[1]@ == x[1]);
                assert(p@[2]@ == x[2]);
            }
        }
        r
    }

    /// The directory of the runtime `runtime_id`; the id is checked before the
    /// documents directory is looked for.
    pub fn runtime_directory(runtime_id: &str) -> (r: AppResult<Vec<String>>)
        ensures
            exists|documents: Option<Seq<char>>| path_view(r) == runtime_path_outcome(documents, runtime_id@),
            workspace_component(runtime_id@, "runtime"@) matches Err(err) ==> (r matches Err(e) && e@ == err),
            entity_path_result(r, runtime_id@, "runtime"@, RUNTIMES_DIR@),
    {
        let documents = documents_directory();
        let ghost d = documents.deep_view();
        let r = runtime_directory_in(documents, runtime_id);
        proof {
            if workspace_component(runtime_id@, "runtime"@) is Ok {
                lemma_entity_path_result(r, d, runtime_id@, "runtime"@, RUNTIMES_DIR@);
            }
        }
        assert(path_view(r) == runtime_path_outcome(d, runtime_id@));
        r
    }

    /// The directory of the plant named `plant_name`.
    pub fn plant_directory(plant_name: &str) -> (r: AppResult<Vec<String>>)
        ensures
            exists|documents: Option<Seq<char>>| path_view(r) == entity_path_outcome(documents, plant_name@, "planta"@, PLANTS_DIR@),
            entity_path_result(r, plant_name@, "planta"@, PLANTS_DIR@),
    {
        let documents = documents_directory();
        let ghost d = documents.deep_view();
        let r = entity_path_in(documents, plant_name, "planta", PLANTS_DIR);
        assert(path_view(r) == entity_path_outcome(d, plant_name@, "planta"@, PLANTS_DIR@));
        proof { lemma_entity_path_result(r, d, plant_name@, "planta"@, PLANTS_DIR@); }
        r
    }
}

} // verus!
