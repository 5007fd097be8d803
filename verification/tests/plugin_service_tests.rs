use senamby::error::AppError;
use senamby::models::{CreatePluginRequest, PluginRuntime, PluginType, UpdatePluginRequest};
use senamby::plugin_service::{ensure_runtime_metadata, resolve_source_code_for_create, PluginService};
use senamby::plugin_store::PluginStore;

fn create_valid_request() -> CreatePluginRequest {
    CreatePluginRequest {
        name: format!("test_driver_{}", "0f3c2a9b"),
        plugin_type: PluginType::Driver,
        runtime: PluginRuntime::Python,
        entry_class: Some("TestDriver".to_string()),
        schema: vec![],
        source_file: None,
        source_code: Some("class TestDriver:\n    pass".to_string()),
        dependencies: vec![],
        description: Some("A test driver".to_string()),
        version: Some("1.0.0".to_string()),
        author: Some("Test Author".to_string()),
    }
}

fn create(store: &mut PluginStore, request: CreatePluginRequest) -> senamby::models::PluginRegistry {
    let plugin = PluginService::registry_for_create(store, request).unwrap();
    store.insert(plugin.clone()).unwrap();
    plugin
}

#[test]
fn test_create_plugin_success() {
    let store = PluginStore::new();
    let request = create_valid_request();
    let expected_name = request.name.clone();
    let result = PluginService::registry_for_create(&store, request);

    assert!(result.is_ok());
    let plugin = result.unwrap();

    assert!(plugin.id.starts_with("plugin_"));
    assert_eq!(plugin.name, expected_name);
    assert_eq!(plugin.source_file.as_deref(), Some("main.py"));
    assert_eq!(plugin.source_code, None);
}

#[test]
fn test_empty_name_should_fail() {
    let store = PluginStore::new();
    let mut request = create_valid_request();

    request.name = String::new();

    assert!(PluginService::registry_for_create(&store, request).is_err());
}

#[test]
fn test_driver_without_source_should_fail() {
    let mut request = create_valid_request();

    request.source_code = None;
    request.source_file = None;

    assert!(resolve_source_code_for_create(request.source_code.as_deref(), None, None).is_err());
}

#[test]
fn source_code_comes_from_request_then_file_then_workspace() {
    assert_eq!(resolve_source_code_for_create(Some("  code  "), None, None).unwrap(), "code");
    assert_eq!(
        resolve_source_code_for_create(Some("   "), Some(Ok("\nfile\n".to_string())), Some("ws".to_string())).unwrap(),
        "file"
    );
    assert_eq!(
        resolve_source_code_for_create(None, Some(Ok("  ".to_string())), Some(" ws ".to_string())).unwrap(),
        "ws"
    );
    assert_eq!(
        resolve_source_code_for_create(None, Some(Err(AppError::IoError("Falha ao ler".to_string()))), Some("ws".to_string()))
            .unwrap_err(),
        AppError::IoError("Falha ao ler".to_string())
    );
    assert_eq!(
        resolve_source_code_for_create(None, None, Some("  ".to_string())).unwrap_err(),
        AppError::InvalidArgument(
            "Código fonte Python é obrigatório. Informe sourceCode ou use um source_file absoluto válido.".to_string()
        )
    );
}

fn update_request(id: &str, name: &str, plugin_type: PluginType, file: &str) -> UpdatePluginRequest {
    UpdatePluginRequest {
        id: id.to_string(),
        name: name.to_string(),
        plugin_type,
        runtime: PluginRuntime::Python,
        entry_class: Some("UpdatedDriver".to_string()),
        schema: vec![],
        source_file: Some(file.to_string()),
        source_code: Some("class UpdatedDriver:\n    pass".to_string()),
        dependencies: vec![],
        description: Some("updated".to_string()),
        version: None,
        author: None,
    }
}

#[test]
fn test_update_plugin_success() {
    let mut store = PluginStore::new();
    let created = create(&mut store, create_valid_request());

    let plan = PluginService::plan_update(&store, update_request(&created.id, "updated_driver", PluginType::Driver, "updated.py"))
        .unwrap();
    store.replace(&plan.next.id, plan.next.clone()).unwrap();
    let updated = plan.next;

    assert_eq!(updated.name, "updated_driver");
    assert_eq!(updated.source_file.as_deref(), Some("main.py"));
    assert_eq!(updated.source_code, None);
    assert_eq!(plan.previous_name, created.name);
    assert_eq!(store.get(&created.id).unwrap().name, "updated_driver");
}

#[test]
fn test_update_plugin_should_fail_when_type_changes() {
    let mut store = PluginStore::new();
    let created = create(&mut store, create_valid_request());

    let result = PluginService::plan_update(&store, update_request(&created.id, "updated_driver", PluginType::Controller, "main.py"));

    assert!(matches!(
        result,
        Err(AppError::InvalidArgument(message)) if message == "Tipo do plugin não pode ser alterado"
    ));
}

#[test]
fn loaded_plugins_get_a_valid_entry_class() {
    let mut store = PluginStore::new();
    let mut plugin = create(&mut store, create_valid_request());
    plugin.entry_class = "  Good_Name1 ".to_string();
    assert!(!ensure_runtime_metadata(&mut plugin));
    assert_eq!(plugin.entry_class, "Good_Name1");
    plugin.entry_class = "1bad".to_string();
    assert!(ensure_runtime_metadata(&mut plugin));
    assert_ne!(plugin.entry_class, "1bad");
}
