use senamby::error::AppError;
use senamby::models::{
    ControllerParam, ControllerParamType, ControllerRuntimeStatus, CreatePlantControllerRequest,
    CreatePlantDriverRequest, CreatePlantRequest, CreatePlantVariableRequest, FloatNumber, ParamEntry, PlantController,
    PluginRegistry, PluginRuntime, PluginSchemaField, PluginType, RemovePlantControllerRequest,
    SavePlantControllerConfigRequest, SavePlantControllerParamRequest, SavePlantSetpointRequest, SchemaFieldType,
    SchemaFieldValue, UpdatePlantRequest, VariableType,
};
use senamby::plant_service::PlantService;
use senamby::plant_store::PlantStore;
use senamby::plugin_store::PluginStore;

fn seconds(ms: u64) -> u64 {
    (ms as f64 / 1000.0).to_bits()
}

fn float(value: f64) -> FloatNumber {
    FloatNumber { bits: value.to_bits(), text: value.to_string() }
}

fn create_test_variable(name: &str) -> CreatePlantVariableRequest {
    CreatePlantVariableRequest {
        name: name.to_string(),
        var_type: VariableType::Sensor,
        unit: "C".to_string(),
        setpoint: 50.0f64.to_bits(),
        pv_min: 0.0f64.to_bits(),
        pv_max: 100.0f64.to_bits(),
        linked_sensor_ids: None,
    }
}

fn plugin(id: &str, name: &str, plugin_type: PluginType, entry_class: &str, file: &str) -> PluginRegistry {
    PluginRegistry {
        id: id.to_string(),
        name: name.to_string(),
        plugin_type,
        runtime: PluginRuntime::Python,
        entry_class: entry_class.to_string(),
        schema: vec![],
        source_file: Some(file.to_string()),
        source_code: Some(format!("class {entry_class}:\n    pass")),
        dependencies: vec![],
        description: None,
        version: None,
        author: None,
    }
}

fn create_plugin_store() -> PluginStore {
    let mut store = PluginStore::new();
    store.insert(plugin("driver_plugin", "Driver Python", PluginType::Driver, "Driver", "driver.py")).unwrap();
    store.insert(plugin("controller_plugin", "PID", PluginType::Controller, "Controller", "controller.py")).unwrap();
    store
}

fn driver_request() -> CreatePlantDriverRequest {
    CreatePlantDriverRequest { plugin_id: "driver_plugin".to_string(), config: vec![] }
}

fn create_valid_request(name: &str) -> CreatePlantRequest {
    CreatePlantRequest {
        name: name.to_string(),
        sample_time_ms: 100,
        variables: vec![create_test_variable("Temperatura")],
        driver: driver_request(),
        controllers: vec![],
    }
}

fn create(store: &mut PlantStore, plugins: &PluginStore, request: CreatePlantRequest) -> Result<senamby::models::Plant, AppError> {
    let dt = seconds(request.sample_time_ms);
    PlantService::create(store, plugins, request, dt)
}

#[test]
fn test_fill_missing_controller_params_uses_schema_defaults() {
    let plugin = PluginRegistry {
        id: "controller_plugin".to_string(),
        name: "TCLAB Controller".to_string(),
        plugin_type: PluginType::Controller,
        runtime: PluginRuntime::Python,
        entry_class: "TclabController".to_string(),
        schema: vec![PluginSchemaField {
            name: "open_duty_1".to_string(),
            field_type: SchemaFieldType::Float,
            default_value: Some(SchemaFieldValue::Float(float(37.5))),
            description: Some("Open duty 1".to_string()),
        }],
        source_file: Some("main.py".to_string()),
        source_code: None,
        dependencies: vec![],
        description: None,
        version: None,
        author: None,
    };
    let mut params: Vec<ParamEntry> = Vec::new();

    let changed = PlantService::fill_missing_controller_params(&mut params, &plugin);

    assert!(changed);
    let param = &params.iter().find(|p| p.key == "open_duty_1").expect("parametro ausente").param;
    assert_eq!(param.param_type, ControllerParamType::Number);
    assert_eq!(param.label, "Open duty 1");
    match &param.value {
        SchemaFieldValue::Float(value) => assert!((f64::from_bits(value.bits) - 37.5).abs() < f64::EPSILON),
        other => panic!("valor inesperado para parametro default: {other:?}"),
    }
}

#[test]
fn test_create_plant_success() {
    let mut store = PlantStore::new();
    let plugins = create_plugin_store();
    let request = create_valid_request("Planta 1");

    let result = create(&mut store, &plugins, request);
    assert!(result.is_ok());

    let plant = result.unwrap();
    assert_eq!(plant.name, "Planta 1");
    assert_eq!(plant.sample_time_ms, 100);
    assert_eq!(plant.variables.len(), 1);
    assert_eq!(plant.driver.plugin_id, "driver_plugin");
    assert!(!plant.connected);
    assert!(!plant.paused);
    assert!(store.contains(&plant.id));
    assert!(plant.id.starts_with("plant_"));
    assert_eq!(plant.id.len(), 42);
    assert_eq!(f64::from_bits(plant.stats.dt), 0.1);
}

#[test]
fn test_update_plant_success() {
    let mut store = PlantStore::new();
    let plugins = create_plugin_store();
    let created = create(&mut store, &plugins, create_valid_request("Planta 1")).unwrap();

    let updated = PlantService::update(
        &mut store,
        &plugins,
        UpdatePlantRequest {
            id: created.id.clone(),
            name: "Planta Atualizada".to_string(),
            sample_time_ms: 200,
            variables: vec![create_test_variable("Nova Variável")],
            driver: driver_request(),
            controllers: vec![],
        },
        seconds(100),
        seconds(200),
    )
    .unwrap();

    assert_eq!(updated.name, "Planta Atualizada");
    assert_eq!(updated.sample_time_ms, 200);
    assert_eq!(updated.variables[0].name, "Nova Variável");
    assert_eq!(f64::from_bits(updated.stats.dt), 0.2);
    assert_eq!(store.get(&created.id).unwrap().name, "Planta Atualizada");
}

#[test]
fn test_create_plant_empty_name() {
    let mut store = PlantStore::new();
    let plugins = create_plugin_store();
    let mut request = create_valid_request("");
    request.name = String::new();

    let result = create(&mut store, &plugins, request);
    assert!(result.is_err());
    assert_eq!(store.count(), 0);
}

#[test]
fn test_create_plant_whitespace_name() {
    let mut store = PlantStore::new();
    let plugins = create_plugin_store();
    let request = create_valid_request("   ");

    let result = create(&mut store, &plugins, request);
    assert_eq!(result.err(), Some(AppError::InvalidArgument("Nome da planta é obrigatório".to_string())));
}

#[test]
fn test_create_plant_no_variables() {
    let mut store = PlantStore::new();
    let plugins = create_plugin_store();
    let mut request = create_valid_request("Planta 1");
    request.variables = vec![];

    let result = create(&mut store, &plugins, request);
    assert_eq!(
        result.err(),
        Some(AppError::InvalidArgument("Pelo menos uma variável deve ser definida".to_string()))
    );
}

#[test]
fn test_create_plant_invalid_pv_range() {
    let mut store = PlantStore::new();
    let plugins = create_plugin_store();
    let mut var = create_test_variable("Temp");
    var.pv_min = 100.0f64.to_bits();
    var.pv_max = 0.0f64.to_bits();
    let mut request = create_valid_request("Planta 1");
    request.variables = vec![var];

    let result = create(&mut store, &plugins, request);
    assert_eq!(
        result.err(),
        Some(AppError::InvalidArgument("Variável 1 inválida: invalid argument: pv_min deve ser menor que pv_max".to_string()))
    );
}

#[test]
fn test_create_plant_invalid_setpoint() {
    let mut store = PlantStore::new();
    let plugins = create_plugin_store();
    let mut var = create_test_variable("Temp");
    var.setpoint = 150.0f64.to_bits();
    let mut request = create_valid_request("Planta 1");
    request.variables = vec![var];

    let result = create(&mut store, &plugins, request);
    assert!(result.is_err());
}

fn pid_request(id: &str, name: &str, params: Vec<ParamEntry>) -> CreatePlantControllerRequest {
    CreatePlantControllerRequest {
        id: Some(id.to_string()),
        plugin_id: "controller_plugin".to_string(),
        name: name.to_string(),
        controller_type: "PID".to_string(),
        active: true,
        input_variable_ids: vec!["var_0".to_string()],
        output_variable_ids: vec!["var_1".to_string()],
        params,
    }
}

#[test]
fn test_create_plant_multiple_variables() {
    let mut store = PlantStore::new();
    let plugins = create_plugin_store();
    let var1 = create_test_variable("Temperatura");
    let mut var2 = create_test_variable("Umidade");
    var2.unit = "%".to_string();
    var2.var_type = VariableType::Atuador;
    var2.setpoint = 0.0f64.to_bits();

    let request = CreatePlantRequest {
        name: "Planta Complexa".to_string(),
        sample_time_ms: 250,
        variables: vec![var1, var2],
        driver: driver_request(),
        controllers: vec![pid_request(
            "ctrl_1",
            "PID 1",
            vec![ParamEntry {
                key: "kp".to_string(),
                param: ControllerParam {
                    param_type: ControllerParamType::Number,
                    value: SchemaFieldValue::Float(float(1.0)),
                    label: "Kp".to_string(),
                },
            }],
        )],
    };

    let result = create(&mut store, &plugins, request);
    assert!(result.is_ok());

    let plant = result.unwrap();
    assert_eq!(plant.variables.len(), 2);
    assert_eq!(plant.variables[0].id, "var_0");
    assert_eq!(plant.variables[1].id, "var_1");
    assert_eq!(plant.sample_time_ms, 250);
    assert_eq!(plant.driver.plugin_id, "driver_plugin");
    assert_eq!(plant.controllers.len(), 1);
    assert!(plant.controllers[0].active);
}

#[test]
fn test_create_plant_preserves_controller_active_flag() {
    let mut store = PlantStore::new();
    let plugins = create_plugin_store();
    let var1 = create_test_variable("Temperatura");
    let mut var2 = create_test_variable("Valvula A");
    var2.var_type = VariableType::Atuador;
    var2.setpoint = 0.0f64.to_bits();

    let request = CreatePlantRequest {
        name: "Planta Com Conflito".to_string(),
        sample_time_ms: 250,
        variables: vec![var1, var2],
        driver: driver_request(),
        controllers: vec![pid_request("ctrl_1", "PID 1", vec![]), pid_request("ctrl_2", "PID 2", vec![])],
    };

    let result = create(&mut store, &plugins, request);
    assert!(result.is_ok());

    let plant = result.unwrap();
    assert_eq!(plant.controllers.len(), 2);
    assert!(plant.controllers.iter().all(|controller| controller.active));
}

#[test]
fn test_create_plant_duplicate_name() {
    let mut store = PlantStore::new();
    let plugins = create_plugin_store();

    create(&mut store, &plugins, create_valid_request("Mesma Planta")).unwrap();

    let result = create(&mut store, &plugins, create_valid_request("Mesma Planta"));
    assert!(result.is_err());
    assert_eq!(store.count(), 1);
}

#[test]
fn test_create_plant_invalid_sample_time() {
    let mut store = PlantStore::new();
    let plugins = create_plugin_store();
    let mut request = create_valid_request("Planta 1");
    request.sample_time_ms = 0;

    let result = create(&mut store, &plugins, request);
    assert_eq!(
        result.err(),
        Some(AppError::InvalidArgument("Tempo de amostragem deve ser maior que 0 ms".to_string()))
    );
}

#[test]
fn test_get_plant() {
    let mut store = PlantStore::new();
    let plugins = create_plugin_store();
    let created = create(&mut store, &plugins, create_valid_request("Test Get")).unwrap();

    let found = PlantService::get(&store, &created.id).unwrap();
    assert_eq!(found.name, "Test Get");
}

#[test]
fn test_get_plant_not_found() {
    let store = PlantStore::new();
    let result = PlantService::get(&store, "invalid_id");
    assert_eq!(result.err(), Some(AppError::NotFound("Planta 'invalid_id' não encontrada".to_string())));
}

#[test]
fn test_list_plants() {
    let mut store = PlantStore::new();
    let plugins = create_plugin_store();

    create(&mut store, &plugins, create_valid_request("Plant A")).unwrap();
    create(&mut store, &plugins, create_valid_request("Plant B")).unwrap();

    let plants = PlantService::list(&store);
    assert_eq!(plants.len(), 2);
}

#[test]
fn test_remove_plant() {
    let mut store = PlantStore::new();
    let plugins = create_plugin_store();
    let plant = create(&mut store, &plugins, create_valid_request("To Remove")).unwrap();

    assert_eq!(store.count(), 1);

    let removed = PlantService::remove(&mut store, &plant.id).unwrap();
    assert_eq!(removed.name, "To Remove");
    assert_eq!(store.count(), 0);
}

#[test]
fn test_close_plant_unloads_but_preserves_registry() {
    let mut store = PlantStore::new();
    let plugins = create_plugin_store();
    let plant = create(&mut store, &plugins, create_valid_request("To Close")).unwrap();
    let plant = store
        .update(&plant.id, |mut plant| {
            plant.controllers.push(PlantController {
                id: "ctrl_close".to_string(),
                plugin_id: "controller_plugin".to_string(),
                plugin_name: "PID".to_string(),
                name: "Controller Close".to_string(),
                controller_type: "PID".to_string(),
                active: true,
                input_variable_ids: vec!["var_0".to_string()],
                output_variable_ids: vec!["var_0".to_string()],
                params: vec![],
                runtime_status: ControllerRuntimeStatus::Synced,
            });
            plant
        })
        .unwrap();

    let closed = PlantService::close(&mut store, &plant.id).unwrap();
    assert_eq!(closed.name, "To Close");
    assert!(closed.controllers.iter().all(|controller| !controller.active));
    assert_eq!(closed.controllers.len(), 1);
    assert_eq!(store.count(), 0);
}

#[test]
fn test_remove_plant_not_found() {
    let mut store = PlantStore::new();
    let result = PlantService::remove(&mut store, "invalid_id");
    assert!(result.is_err());
}

fn two_variable_plant(store: &mut PlantStore, plugins: &PluginStore) -> senamby::models::Plant {
    let mut actuator = create_test_variable("Valvula");
    actuator.var_type = VariableType::Atuador;
    actuator.setpoint = 0.0f64.to_bits();
    let mut request = create_valid_request("Planta Controle");
    request.variables.push(actuator);
    create(store, plugins, request).unwrap()
}

fn save_request(plant_id: &str, controller_id: &str, active: bool) -> SavePlantControllerConfigRequest {
    SavePlantControllerConfigRequest {
        plant_id: plant_id.to_string(),
        controller_id: controller_id.to_string(),
        plugin_id: Some("controller_plugin".to_string()),
        name: "  PID Novo  ".to_string(),
        controller_type: " PID ".to_string(),
        active,
        input_variable_ids: vec!["var_0".to_string()],
        output_variable_ids: vec!["var_1".to_string()],
        params: vec![
            SavePlantControllerParamRequest {
                key: "kp".to_string(),
                param_type: ControllerParamType::Number,
                value: SchemaFieldValue::Int(1),
                label: "Kp".to_string(),
            },
            SavePlantControllerParamRequest {
                key: "kp".to_string(),
                param_type: ControllerParamType::Number,
                value: SchemaFieldValue::Int(2),
                label: "Kp".to_string(),
            },
        ],
    }
}

#[test]
fn save_controller_config_adds_a_controller_as_asked() {
    let mut store = PlantStore::new();
    let plugins = create_plugin_store();
    let plant = two_variable_plant(&mut store, &plugins);

    let saved = PlantService::save_controller_config(&mut store, &plugins, save_request(&plant.id, "ctrl_a", true)).unwrap();
    assert_eq!(saved.controllers.len(), 1);
    let c = &saved.controllers[0];
    assert_eq!(c.id, "ctrl_a");
    assert_eq!(c.name, "PID Novo");
    assert_eq!(c.controller_type, "PID");
    assert_eq!(c.plugin_name, "PID");
    assert!(c.active);
    assert_eq!(c.params.len(), 1);
    assert!(matches!(c.params[0].param.value, SchemaFieldValue::Int(2)));

    let saved = PlantService::save_controller_config(&mut store, &plugins, save_request(&plant.id, "ctrl_a", true)).unwrap();
    assert_eq!(saved.controllers.len(), 1);
    assert!(saved.controllers[0].active);
    assert_eq!(store.get(&plant.id).unwrap().controllers.len(), 1);
}

#[test]
fn save_controller_config_reports_each_refusal() {
    let mut store = PlantStore::new();
    let plugins = create_plugin_store();
    let plant = two_variable_plant(&mut store, &plugins);

    let mut missing_plugin = save_request(&plant.id, "ctrl_a", false);
    missing_plugin.plugin_id = Some("  ".to_string());
    assert_eq!(
        PlantService::save_controller_config(&mut store, &plugins, missing_plugin).err(),
        Some(AppError::InvalidArgument("Plugin do controlador é obrigatório".to_string()))
    );

    let mut wrong_kind = save_request(&plant.id, "ctrl_a", false);
    wrong_kind.plugin_id = Some("driver_plugin".to_string());
    assert_eq!(
        PlantService::save_controller_config(&mut store, &plugins, wrong_kind).err(),
        Some(AppError::InvalidArgument("Plugin 'Driver Python' não é do tipo controlador".to_string()))
    );

    let mut wrong_output = save_request(&plant.id, "ctrl_a", false);
    wrong_output.output_variable_ids = vec!["var_0".to_string()];
    assert_eq!(
        PlantService::save_controller_config(&mut store, &plugins, wrong_output).err(),
        Some(AppError::InvalidArgument("A variável 'var_0' não pode ser usada como saída".to_string()))
    );

    PlantService::save_controller_config(&mut store, &plugins, save_request(&plant.id, "ctrl_a", true)).unwrap();
    PlantService::save_controller_config(&mut store, &plugins, save_request(&plant.id, "ctrl_a", true)).unwrap();
    PlantService::save_controller_config(&mut store, &plugins, save_request(&plant.id, "ctrl_b", false)).unwrap();
    assert_eq!(
        PlantService::save_controller_config(&mut store, &plugins, save_request(&plant.id, "ctrl_b", true)).err(),
        Some(AppError::InvalidArgument(
            "A saída 'var_1' não pode ser controlada ao mesmo tempo por 'PID Novo' e '  PID Novo  '".to_string()
        ))
    );

    store.update(&plant.id, |mut p| { p.connected = true; p }).unwrap();
    let live = PlantService::save_controller_config(&mut store, &plugins, save_request(&plant.id, "ctrl_c", false)).unwrap();
    assert_eq!(live.controllers.len(), 3);
    assert_eq!(live.controllers[2].id, "ctrl_c");
    assert!(!live.controllers[2].active);
    assert!(PlantService::save_controller_config(&mut store, &plugins, save_request("nope", "ctrl_c", false)).is_err());
}

#[test]
fn remove_controller_and_save_setpoint() {
    let mut store = PlantStore::new();
    let plugins = create_plugin_store();
    let plant = two_variable_plant(&mut store, &plugins);
    PlantService::save_controller_config(&mut store, &plugins, save_request(&plant.id, "ctrl_a", false)).unwrap();

    let missing = RemovePlantControllerRequest { plant_id: plant.id.clone(), controller_id: "nope".to_string() };
    assert_eq!(
        PlantService::remove_controller(&mut store, missing).err(),
        Some(AppError::NotFound("Controlador 'nope' não encontrado na planta 'Planta Controle'".to_string()))
    );
    let request = RemovePlantControllerRequest { plant_id: plant.id.clone(), controller_id: "ctrl_a".to_string() };
    let updated = PlantService::remove_controller(&mut store, request).unwrap();
    assert!(updated.controllers.is_empty());

    let set = |variable: &str, value: f64| SavePlantSetpointRequest {
        plant_id: plant.id.clone(),
        variable_id: variable.to_string(),
        setpoint: value.to_bits(),
    };
    let updated = PlantService::save_setpoint(&mut store, set("var_0", 42.0)).unwrap();
    assert_eq!(f64::from_bits(updated.variables[0].setpoint), 42.0);
    assert_eq!(
        PlantService::save_setpoint(&mut store, set("var_1", 1.0)).err(),
        Some(AppError::InvalidArgument("Apenas sensores podem ter setpoint editado".to_string()))
    );
    assert_eq!(
        PlantService::save_setpoint(&mut store, set("var_0", 100.5)).err(),
        Some(AppError::InvalidArgument("Setpoint deve estar entre pv_min e pv_max".to_string()))
    );
    assert_eq!(
        PlantService::save_setpoint(&mut store, set("var_9", 1.0)).err(),
        Some(AppError::NotFound("Variável 'var_9' não encontrada na planta 'Planta Controle'".to_string()))
    );
    assert!(PlantService::save_setpoint(&mut store, set("var_0", -0.0)).is_ok());
}
