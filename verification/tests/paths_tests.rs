use senamby::error::AppError;
use senamby::import_service::ImportFileRequest;
use senamby::json::JsonValue;
use senamby::models::{
    Plant, PlantDriver, PlantStats, PluginDependency, PluginRegistry, PluginRuntime, PluginType,
};
use senamby::plant_service::PlantResponse;
use senamby::runtime_environment::{environment_metadata, needs_write};
use senamby::runtime_service::{driver_write_source_path, resolve_plugin_source_path, runtime_controller_paths};
use senamby::workspace::{directory_in, entity_file_in, entity_path_in, root_from, runtime_directory_in, WorkspaceService};

fn documents_missing() -> AppError {
    AppError::IoError("Não foi possível localizar o diretório Documentos".to_string())
}

fn plugin(name: &str, plugin_type: PluginType, runtime: PluginRuntime, file: Option<&str>) -> PluginRegistry {
    PluginRegistry {
        id: format!("{name}_id"),
        name: name.to_string(),
        plugin_type,
        runtime,
        entry_class: "Entry".to_string(),
        schema: vec![],
        source_file: file.map(str::to_string),
        source_code: None,
        dependencies: vec![PluginDependency { name: "numpy".to_string(), version: "1.0".to_string() }],
        description: None,
        version: None,
        author: None,
    }
}

#[test]
fn plugin_paths_live_in_the_workspace() {
    match WorkspaceService::plugin_directory(" PID ", PluginType::Controller) {
        Ok(p) => assert_eq!(p[1..], ["Senamby/workspace", "controllers", "PID"]),
        Err(e) => assert_eq!(e, documents_missing()),
    }
    match WorkspaceService::plugin_source_path("Serial", PluginType::Driver) {
        Ok(p) => assert_eq!(p[1..], ["Senamby/workspace", "drivers", "Serial", "main.py"]),
        Err(e) => assert_eq!(e, documents_missing()),
    }
    match WorkspaceService::plugin_root_directory(PluginType::Driver) {
        Ok(p) => assert_eq!(p[1..], ["Senamby/workspace", "drivers"]),
        Err(e) => assert_eq!(e, documents_missing()),
    }
    match WorkspaceService::plugin_source_path("../x", PluginType::Driver) {
        Ok(_) => panic!("a path out of the workspace is refused"),
        Err(e) => assert!(
            e == documents_missing()
                || e == AppError::InvalidArgument("Nome de plugin não pode conter separadores de diretório".to_string())
        ),
    }
}

#[test]
fn source_paths_use_the_plugin_file_or_main() {
    match resolve_plugin_source_path(&plugin("Drv", PluginType::Driver, PluginRuntime::Python, Some("drv.py")), PluginType::Driver) {
        Ok(p) => assert_eq!(p[1..], ["Senamby/workspace", "drivers", "Drv", "drv.py"]),
        Err(e) => assert_eq!(e, documents_missing()),
    }
    match resolve_plugin_source_path(&plugin("Ctl", PluginType::Controller, PluginRuntime::Python, None), PluginType::Controller) {
        Ok(p) => assert_eq!(p[1..], ["Senamby/workspace", "controllers", "Ctl", "main.py"]),
        Err(e) => assert_eq!(e, documents_missing()),
    }
    assert_eq!(
        driver_write_source_path(&plugin("Drv", PluginType::Driver, PluginRuntime::RustNative, None)).unwrap_err(),
        AppError::InvalidArgument("A runtime atual suporta apenas drivers Python".to_string())
    );
    assert_eq!(
        runtime_controller_paths(&plugin("Ctl", PluginType::Controller, PluginRuntime::RustNative, None), "PID 1").unwrap_err(),
        AppError::InvalidArgument("O controlador 'PID 1' precisa ser Python para executar na runtime atual".to_string())
    );
    match runtime_controller_paths(&plugin("Ctl", PluginType::Controller, PluginRuntime::Python, None), "PID 1") {
        Ok((dir, source)) => {
            assert_eq!(dir[1..], ["Senamby/workspace", "controllers", "Ctl"]);
            assert_eq!(source[1..], ["Senamby/workspace", "controllers", "Ctl", "main.py"]);
        }
        Err(e) => assert_eq!(e, documents_missing()),
    }
}

fn text(v: &JsonValue) -> &str {
    match v {
        JsonValue::String(s) => s,
        other => panic!("{other:?}"),
    }
}

fn get<'a>(v: &'a JsonValue, key: &str) -> &'a JsonValue {
    match v {
        JsonValue::Object(members) => &members.iter().find(|m| m.key == key).unwrap().value,
        other => panic!("{other:?}"),
    }
}

#[test]
fn environment_metadata_lists_plugins_and_dependencies() {
    let plugins = vec![
        plugin("Drv", PluginType::Driver, PluginRuntime::Python, None),
        plugin("Ctl", PluginType::Controller, PluginRuntime::Python, None),
    ];
    let meta = environment_metadata("abc", &plugins);
    assert_eq!(text(get(&meta, "env_hash")), "abc");
    assert_eq!(text(get(&meta, "runtime")), "python");
    match get(&meta, "plugins") {
        JsonValue::Array(items) => {
            assert_eq!(items.len(), 2);
            assert_eq!(text(get(&items[0], "id")), "Drv_id");
            assert_eq!(text(get(&items[0], "type")), "driver");
            assert_eq!(text(get(&items[1], "type")), "controller");
            assert_eq!(text(get(&items[1], "runtime")), "python");
            assert_eq!(text(get(&items[1], "entry_class")), "Entry");
        }
        other => panic!("{other:?}"),
    }
    match get(&meta, "dependencies") {
        JsonValue::Array(items) => {
            assert_eq!(items.len(), 2);
            assert_eq!(text(get(&items[1], "plugin_id")), "Ctl_id");
            assert_eq!(text(get(&items[1], "name")), "numpy");
            assert_eq!(text(get(&items[1], "version")), "1.0");
        }
        other => panic!("{other:?}"),
    }
}

#[test]
fn files_are_written_only_when_they_change() {
    assert!(needs_write(&None, "x"));
    assert!(needs_write(&Some("a".to_string()), "b"));
    assert!(!needs_write(&Some("same".to_string()), "same"));
}

#[test]
fn responses_carry_the_whole_plant() {
    let plant = Plant {
        id: "p1".to_string(),
        name: "Plant".to_string(),
        sample_time_ms: 250,
        variables: vec![],
        driver: PlantDriver {
            plugin_id: "d".to_string(),
            plugin_name: "D".to_string(),
            runtime: PluginRuntime::Python,
            source_file: None,
            source_code: None,
            config: vec![],
        },
        controllers: vec![],
        connected: true,
        paused: true,
        stats: PlantStats { dt: 0.25f64.to_bits(), uptime: 9 },
    };
    let r = PlantResponse::from_plant(&plant);
    assert_eq!(r.id, "p1");
    assert_eq!(r.sample_time_ms, 250);
    assert!(r.connected && r.paused);
    assert_eq!(r.stats, plant.stats);
    assert_eq!(r.driver.plugin_name, "D");

    let request = ImportFileRequest { file_name: "a.json".to_string(), content: "{}".to_string() }.into_plant_import_request();
    assert_eq!(request.file_name, "a.json");
    assert_eq!(request.content, "{}");
}

#[test]
fn paths_under_a_given_documents_directory() {
    let docs = || Some("/home/ana/Documentos".to_string());
    assert_eq!(root_from(docs()).unwrap(), ["/home/ana/Documentos", "Senamby/workspace"]);
    assert_eq!(root_from(None).unwrap_err(), documents_missing());
    assert_eq!(directory_in(docs(), "runtimes").unwrap(), ["/home/ana/Documentos", "Senamby/workspace", "runtimes"]);
    assert_eq!(
        entity_path_in(docs(), " PID ", "plugin", "controllers").unwrap(),
        ["/home/ana/Documentos", "Senamby/workspace", "controllers", "PID"]
    );
    assert_eq!(
        entity_file_in(docs(), "Serial", "plugin", "drivers", "main.py").unwrap(),
        ["/home/ana/Documentos", "Senamby/workspace", "drivers", "Serial", "main.py"]
    );
    assert_eq!(entity_path_in(None, "../x", "plugin", "drivers").unwrap_err(), documents_missing());
    assert_eq!(
        entity_path_in(docs(), "../x", "plugin", "drivers").unwrap_err(),
        AppError::InvalidArgument("Nome de plugin não pode conter separadores de diretório".to_string())
    );
    assert_eq!(
        runtime_directory_in(None, "rt/1").unwrap_err(),
        AppError::InvalidArgument("Nome de runtime não pode conter separadores de diretório".to_string())
    );
    assert_eq!(runtime_directory_in(None, "rt_1").unwrap_err(), documents_missing());
    assert_eq!(
        runtime_directory_in(docs(), "rt_1").unwrap(),
        ["/home/ana/Documentos", "Senamby/workspace", "runtimes", "rt_1"]
    );
    assert_eq!(
        WorkspaceService::runtime_directory("rt/1").unwrap_err(),
        AppError::InvalidArgument("Nome de runtime não pode conter separadores de diretório".to_string())
    );
}
