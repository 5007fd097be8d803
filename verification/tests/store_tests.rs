use senamby::models::{
    Plant, PlantController, PlantDriver, PlantStats, PlantVariable, PluginRegistry, PluginRuntime, PluginType,
    VariableType,
};
use senamby::plant_store::PlantStore;
use senamby::plugin_store::PluginStore;

fn create_test_plant(id: &str, name: &str) -> Plant {
    Plant {
        id: id.to_string(),
        name: name.to_string(),
        sample_time_ms: 100,
        variables: vec![PlantVariable {
            id: "var_0".to_string(),
            name: "Temperatura".to_string(),
            var_type: VariableType::Sensor,
            unit: "°C".to_string(),
            setpoint: 50.0f64.to_bits(),
            pv_min: 0.0f64.to_bits(),
            pv_max: 100.0f64.to_bits(),
            linked_sensor_ids: None,
        }],
        driver: PlantDriver {
            plugin_id: "driver_plugin".to_string(),
            plugin_name: "Driver Python".to_string(),
            runtime: PluginRuntime::Python,
            source_file: Some("driver.py".to_string()),
            source_code: Some("class Driver:\n    pass".to_string()),
            config: vec![],
        },
        controllers: Vec::<PlantController>::new(),
        connected: false,
        paused: false,
        stats: PlantStats { dt: 0.0f64.to_bits(), uptime: 0 },
    }
}

#[test]
fn test_insert_and_get() {
    let mut store = PlantStore::new();
    let plant = create_test_plant("plant_1", "Test Plant");

    assert!(store.insert(plant.clone()).is_ok());

    let retrieved = store.get("plant_1").unwrap();
    assert_eq!(retrieved.name, "Test Plant");
}

#[test]
fn test_insert_duplicate_fails() {
    let mut store = PlantStore::new();
    let plant = create_test_plant("plant_1", "Test Plant");

    assert!(store.insert(plant.clone()).is_ok());
    assert!(store.insert(plant).is_err());
}

#[test]
fn test_insert_duplicate_name_ignores_case_and_whitespace() {
    let mut store = PlantStore::new();

    assert!(store.insert(create_test_plant("plant_1", "Planta A")).is_ok());
    assert!(store.insert(create_test_plant("plant_2", "  planta a  ")).is_err());
}

#[test]
fn test_list() {
    let mut store = PlantStore::new();
    store.insert(create_test_plant("plant_1", "Plant 1")).unwrap();
    store.insert(create_test_plant("plant_2", "Plant 2")).unwrap();

    let plants = store.list();
    assert_eq!(plants.len(), 2);
}

#[test]
fn test_remove() {
    let mut store = PlantStore::new();
    store.insert(create_test_plant("plant_1", "Test Plant")).unwrap();

    let removed = store.remove("plant_1").unwrap();
    assert_eq!(removed.name, "Test Plant");
    assert!(!store.contains("plant_1"));
}

#[test]
fn test_update() {
    let mut store = PlantStore::new();
    store.insert(create_test_plant("plant_1", "Original")).unwrap();

    let updated = store
        .update("plant_1", |mut p: Plant| {
            p.name = "Updated".to_string();
            p.connected = true;
            p
        })
        .unwrap();

    assert_eq!(updated.name, "Updated");
    assert!(updated.connected);
}

#[test]
fn plant_store_replace_keeps_names_unique() {
    let mut store = PlantStore::new();
    store.insert(create_test_plant("plant_1", "Alpha")).unwrap();
    store.insert(create_test_plant("plant_2", "Beta")).unwrap();

    assert!(store.replace("plant_2", create_test_plant("plant_2", " ALPHA ")).is_err());
    assert!(store.replace("plant_3", create_test_plant("plant_3", "Gamma")).is_err());
    assert!(store.replace("plant_2", create_test_plant("plant_2", "Gamma")).is_ok());
    assert!(store.exists_by_name("gamma"));
    assert!(!store.exists_by_name("beta"));
    assert!(store.exists_by_name_except("plant_1", "GAMMA"));
    assert!(!store.exists_by_name_except("plant_2", "GAMMA"));
    assert_eq!(store.count(), 2);
}

#[test]
fn plant_store_remove_frees_the_name() {
    let mut store = PlantStore::new();
    store.insert(create_test_plant("plant_1", "Alpha")).unwrap();
    store.remove("plant_1").unwrap();
    assert!(store.remove("plant_1").is_err());
    assert!(store.insert(create_test_plant("plant_9", "alpha")).is_ok());
    assert_eq!(store.get("plant_9").unwrap().name, "alpha");
}

fn create_plugin_test(id: &str, name: &str, description: Option<&str>) -> PluginRegistry {
    PluginRegistry {
        id: id.to_string(),
        name: name.to_string(),
        plugin_type: PluginType::Driver,
        runtime: PluginRuntime::Python,
        entry_class: "TestDriver".to_string(),
        schema: vec![],
        source_file: None,
        source_code: None,
        dependencies: vec![],
        description: description.map(str::to_string),
        version: None,
        author: None,
    }
}

#[test]
fn test_registry_insert() {
    let mut store = PluginStore::new();

    let plugin1_registry = create_plugin_test("plugin_test_1", "Plugin 1", Some("Plugin Description"));
    let plugin2_registry = create_plugin_test("plugin_test_2", "Plugin 2", None);

    assert!(store.insert(plugin1_registry).is_ok());
    assert!(store.insert(plugin2_registry).is_ok());

    let retrieved_plugin1 = store.get("plugin_test_1").unwrap();
    let retrieved_plugin2 = store.get("plugin_test_2").unwrap();

    assert_eq!(retrieved_plugin1.name, "Plugin 1");
    assert_eq!(retrieved_plugin2.name, "Plugin 2");
    assert_eq!(retrieved_plugin2.description, None);
}

#[test]
fn test_registry_duplicated_id() {
    let mut store = PluginStore::new();

    let plugin1_registry = create_plugin_test("plugin_test_1", "Plugin 1", Some("Plugin Description"));
    let plugin2_registry = create_plugin_test("plugin_test_1", "Plugin 2", None);

    assert!(store.insert(plugin1_registry).is_ok());
    assert!(store.insert(plugin2_registry).is_err());
}

#[test]
fn test_registry_duplicate_name_ignores_case_and_whitespace() {
    let mut store = PluginStore::new();

    assert!(store.insert(create_plugin_test("plugin_test_1", "Driver Base", None)).is_ok());
    assert!(store.insert(create_plugin_test("plugin_test_2", "  driver base  ", None)).is_err());
}

#[test]
fn plugin_store_lists_by_type_and_finds_by_name() {
    let mut store = PluginStore::new();
    store.insert(create_plugin_test("d1", "Driver Base", None)).unwrap();
    let mut controller = create_plugin_test("c1", "PID", None);
    controller.plugin_type = PluginType::Controller;
    store.insert(controller).unwrap();

    assert_eq!(store.list().len(), 2);
    let drivers = store.list_by_type(PluginType::Driver);
    assert_eq!(drivers.len(), 1);
    assert_eq!(drivers[0].id, "d1");
    assert_eq!(store.find_by_type_and_name(PluginType::Controller, "  pid ").map(|p| p.id), Some("c1".to_string()));
    assert!(store.find_by_type_and_name(PluginType::Driver, "pid").is_none());
    let removed = store.remove("d1").unwrap();
    assert_eq!(removed.name, "Driver Base");
    assert!(!store.exists_by_name("driver base"));
}
