use senamby::error::AppError;
use senamby::import_service::PlantImportService;
use senamby::models::{
    ControllerParamType, PluginRegistry, PluginRuntime, PluginType, SchemaFieldValue, VariableType,
};
use senamby::plant_import::PlantImportFileRequest;
use senamby::plant_store::PlantStore;
use senamby::plugin_import::PluginImportService;
use senamby::plugin_store::PluginStore;

fn open(file_name: &str, content: &str) -> Result<senamby::plant_import::OpenedPlantFile, AppError> {
    let request = PlantImportFileRequest { file_name: file_name.to_string(), content: content.to_string() };
    PlantImportService::open_file(request)
}

fn value_of(point: &[senamby::keyed::Keyed<u64>], key: &str) -> Option<f64> {
    point.iter().find(|e| e.key == key).map(|e| f64::from_bits(e.value))
}

#[test]
fn parse_file_supports_empty_dependency_version() {
    let json = r#"
    {
      "name": "Driver Teste",
      "kind": "driver",
      "runtime": "python",
      "schema": [
        {
          "name": "channels",
          "type": "list",
          "defaultValue": ["A0", 1, true]
        }
      ],
      "dependencies": [
        { "name": "numpy", "version": "" }
      ]
    }
    "#;

    let parsed = PluginImportService::parse_file(json).expect("parse should succeed");
    assert_eq!(parsed.name, "Driver Teste");
    assert_eq!(parsed.dependencies.len(), 1);
    assert_eq!(parsed.dependencies[0].name, "numpy");
    assert_eq!(parsed.dependencies[0].version, "");
}

#[test]
fn parse_file_generates_id_when_missing() {
    let json = r#"
    {
      "name": "Controller Teste",
      "kind": "controller",
      "runtime": "python",
      "schema": []
    }
    "#;

    let parsed = PluginImportService::parse_file(json).expect("parse should succeed");
    assert!(parsed.id.starts_with("plugin_"));
    assert_eq!(parsed.id.len(), 43);
    assert_eq!(parsed.entry_class, "ControllerTeste");
    assert_eq!(parsed.source_file.as_deref(), Some("main.py"));
    assert_eq!(parsed.plugin_type, PluginType::Controller);
}

#[test]
fn parse_file_reports_each_refusal() {
    assert!(matches!(
        PluginImportService::parse_file("{ nope"),
        Err(AppError::InvalidArgument(m)) if m.starts_with("JSON inválido: ")
    ));
    assert_eq!(
        PluginImportService::parse_file("[1]").err(),
        Some(AppError::InvalidArgument("Arquivo inválido: não é um objeto JSON".to_string()))
    );
    assert_eq!(
        PluginImportService::parse_file(r#"{"name": " ", "kind": "driver"}"#).err(),
        Some(AppError::InvalidArgument("Campo \"name\" é obrigatório".to_string()))
    );
    assert_eq!(
        PluginImportService::parse_file(r#"{"name": "x", "type": "sensor", "runtime": "python"}"#).err(),
        Some(AppError::InvalidArgument("Campo \"kind\" deve ser \"driver\" ou \"controller\"".to_string()))
    );
    assert_eq!(
        PluginImportService::parse_file(r#"{"name": "x", "kind": " DRIVER ", "runtime": "java"}"#).err(),
        Some(AppError::InvalidArgument("Campo \"runtime\" deve ser \"python\" ou \"rust-native\"".to_string()))
    );
    assert_eq!(
        PluginImportService::parse_file(r#"{"name": "x", "kind": "driver", "runtime": "Rust_Native"}"#).err(),
        Some(AppError::InvalidArgument("Campo \"schema\" deve ser um array".to_string()))
    );
    assert_eq!(
        PluginImportService::parse_file(
            r#"{"name": "x", "kind": "driver", "runtime": "python", "schema": [{"name": "a", "type": "int", "defaultValue": null}]}"#
        )
        .err(),
        Some(AppError::InvalidArgument("schema.defaultValue possui tipo não suportado".to_string()))
    );
    let parsed = PluginImportService::parse_file(
        r#"{"id": " fixo ", "name": " Meu  plugin ", "kind": "driver", "runtime": "rust-native", "entryClass": "9bad", "sourceCode": "  code  ",
            "schema": [{"name": " rate ", "type": "Float", "default_value": 2.5, "description": " d "}]}"#,
    )
    .unwrap();
    assert_eq!(parsed.id, "fixo");
    assert_eq!(parsed.name, "Meu  plugin");
    assert_eq!(parsed.runtime, PluginRuntime::RustNative);
    assert_eq!(parsed.entry_class, "9bad");
    assert_eq!(parsed.source_code.as_deref(), Some("code"));
    assert_eq!(parsed.schema[0].name, "rate");
    assert_eq!(parsed.schema[0].description.as_deref(), Some(" d "));
    assert!(matches!(&parsed.schema[0].default_value, Some(SchemaFieldValue::Float(f)) if f64::from_bits(f.bits) == 2.5));
}

#[test]
fn open_file_reads_registry_shape_with_driver_and_controllers() {
    let json = r#"
    {
      "name": "Planta Registry",
      "sample_time_ms": 500,
      "variables": [
        {
          "id": "sensor_a",
          "name": "Temperatura",
          "type": "sensor",
          "unit": "C",
          "setpoint": 45.0,
          "pv_min": 0.0,
          "pv_max": 100.0
        }
      ],
      "driver": {
        "plugin_id": "driver_mock",
        "plugin_name": "Driver Mock",
        "config": {
          "baud": 9600
        }
      },
      "controllers": [
        {
          "id": "ctrl_pid_1",
          "plugin_id": "controller_pid",
          "plugin_name": "PID Controller",
          "name": "PID Temperatura",
          "controller_type": "PID",
          "active": true,
          "input_variable_ids": ["sensor_a"],
          "output_variable_ids": ["var_1"],
          "params": {
            "kp": {
              "type": "number",
              "value": 1.5,
              "label": "Kp"
            }
          }
        }
      ]
    }
    "#;

    let response = open("registry.json", json).expect("open file should succeed");

    assert_eq!(response.name, "Planta Registry");
    assert_eq!(response.sample_time_ms, Some(500));
    assert_eq!(response.variables.len(), 1);
    assert_eq!(response.data.len(), 0);
    assert!(response.driver.is_some());
    assert_eq!(response.controllers.len(), 1);

    let driver = response.driver.as_ref().expect("driver should be present");
    assert_eq!(driver.plugin_id, "driver_mock");
    assert_eq!(driver.plugin_name, "Driver Mock");
    assert!(matches!(
        driver.config.iter().find(|e| e.key == "baud").map(|e| &e.value),
        Some(SchemaFieldValue::Int(9600))
    ));

    let controller = &response.controllers[0];
    assert_eq!(controller.id, "ctrl_pid_1");
    assert_eq!(controller.plugin_id, "controller_pid");
    assert_eq!(controller.plugin_name, "PID Controller");
    assert_eq!(controller.name, "PID Temperatura");
    assert_eq!(controller.controller_type, "PID");
    assert!(!controller.active);
    assert_eq!(controller.input_variable_ids, vec!["sensor_a".to_string()]);
    assert_eq!(controller.output_variable_ids, vec!["var_1".to_string()]);
    let kp = controller.params.iter().find(|p| p.key == "kp").expect("kp");
    assert_eq!(kp.param.param_type, ControllerParamType::Number);
    assert!(matches!(&kp.param.value, SchemaFieldValue::Float(f) if (f64::from_bits(f.bits) - 1.5).abs() < f64::EPSILON));
    assert_eq!(response.series_catalog.plant_id, response.id);
    assert_eq!(response.series_catalog.series.len(), 2);
    assert_eq!(response.series_catalog.series[1].key, "var_0_sp");
    assert_eq!(response.series_catalog.series[1].label, "Temperatura SP");
}

#[test]
fn open_file_reads_legacy_shape_without_driver() {
    let json = r#"
    {
      "meta": {
        "name": "Planta Legacy",
        "sampleTimeMs": 1000
      },
      "sensors": [
        { "id": "s1", "name": "Temp", "unit": "C" }
      ],
      "actuators": [
        {
          "id": "a1",
          "name": "Valvula",
          "unit": "%",
          "linkedSensorIds": ["s1"]
        }
      ],
      "setpoints": [
        { "id": "sp1", "sensorId": "s1" }
      ],
      "data": [
        {
          "time": 0.0,
          "sensors": { "s1": 20.0 },
          "setpoints": { "sp1": 25.0 },
          "actuators": { "a1": 10.0 }
        },
        {
          "time": 1.0,
          "sensors": { "s1": 21.0 },
          "setpoints": { "sp1": 26.0 },
          "actuators": { "a1": 11.0 }
        }
      ]
    }
    "#;

    let response = open("legacy.json", json).expect("open file should succeed");

    assert_eq!(response.name, "Planta Legacy");
    assert_eq!(response.sample_time_ms, Some(1000));
    assert_eq!(response.variables.len(), 2);
    assert_eq!(response.data.len(), 2);
    assert!(response.driver.is_none());
    assert!(response.controllers.is_empty());
    let times: Vec<f64> = response.data.iter().map(|p| value_of(p, "time").unwrap()).collect();
    let deltas: Vec<f64> = times.windows(2).map(|w| (w[1] - w[0]).max(0.0)).collect();
    let dt = deltas.iter().sum::<f64>() / deltas.len() as f64;
    assert!((dt - 1.0).abs() < f64::EPSILON);
    assert_eq!(value_of(&response.data[1], "var_0_pv"), Some(21.0));
    assert_eq!(value_of(&response.data[1], "var_0_sp"), Some(26.0));
    assert_eq!(value_of(&response.data[1], "var_1_pv"), Some(11.0));
    assert_eq!(response.variables[1].id, "var_1");
    assert_eq!(response.variables[1].var_type, VariableType::Atuador);
    assert_eq!(response.variables[1].linked_sensor_ids, Some(vec!["var_0".to_string()]));
    assert_eq!(response.series_catalog.series.len(), 3);
    assert_eq!(response.series_catalog.series[2].role, "mv");
}

#[test]
fn open_file_reports_each_refusal() {
    assert_eq!(
        open("x.json", "{\"variables\": ").err(),
        Some(AppError::InvalidArgument("JSON inválido: EOF while parsing a value at line 1 column 14".to_string()))
    );
    assert_eq!(open("x.json", "[]").err(), Some(AppError::InvalidArgument("Arquivo deve ser um objeto".to_string())));
    assert_eq!(
        open("x.json", r#"{"variables": []}"#).err(),
        Some(AppError::InvalidArgument("Campo \"variables\" está vazio".to_string()))
    );
    assert_eq!(
        open("x.json", r#"{"variables": [{"name": "a", "type": "valve"}]}"#).err(),
        Some(AppError::InvalidArgument("variables.type deve ser \"sensor\" ou \"atuador\"".to_string()))
    );
    assert_eq!(
        open("x.json", r#"{"variables": [{"name": "a", "type": " Actuator "}], "driver": {"plugin_id": " "}}"#).err(),
        Some(AppError::InvalidArgument("driver.plugin_id deve ser uma string não vazia".to_string()))
    );
    assert_eq!(
        open("x.json", r#"{"sensors": []}"#).err(),
        Some(AppError::InvalidArgument("Campo \"actuators\" ausente".to_string()))
    );
    assert_eq!(
        open("x.json", r#"{"sensors": [], "actuators": [], "setpoints": [], "data": []}"#).err(),
        Some(AppError::InvalidArgument("Campo \"data\" está vazio".to_string()))
    );
    assert_eq!(
        open("x.json", r#"{"sensors": [{"id": 1}], "actuators": [], "setpoints": [], "data": [{}]}"#).err(),
        Some(AppError::InvalidArgument("sensors[0].id deve ser uma string".to_string()))
    );
    assert_eq!(
        open("x.json", r#"{"sensors": [], "actuators": [], "setpoints": [], "data": [{"time": 0, "sensors": {}}]}"#).err(),
        Some(AppError::InvalidArgument("data[0].setpoints ausente".to_string()))
    );
    let opened = open("arquivo.json", r#"{"variables": [{"name": "a", "type": "SENSOR"}]}"#).unwrap();
    assert_eq!(opened.name, "arquivo.json");
    assert_eq!(opened.sample_time_ms, Some(100));
    assert_eq!(opened.variables[0].id, "var_0");
    assert_eq!(f64::from_bits(opened.variables[0].pv_max), 100.0);
}

fn plugin(id: &str, name: &str, plugin_type: PluginType) -> PluginRegistry {
    PluginRegistry {
        id: id.to_string(),
        name: name.to_string(),
        plugin_type,
        runtime: PluginRuntime::Python,
        entry_class: "Entry".to_string(),
        schema: vec![],
        source_file: Some("main.py".to_string()),
        source_code: None,
        dependencies: vec![],
        description: None,
        version: None,
        author: None,
    }
}

#[test]
fn import_file_resets_registry_controller_activation() {
    let mut plugins = PluginStore::new();
    let mut plants = PlantStore::new();
    plugins.insert(plugin("driver_mock_1", "Driver Mock 1", PluginType::Driver)).unwrap();
    plugins.insert(plugin("controller_pid_1", "PID Controller 1", PluginType::Controller)).unwrap();

    let json = r#"
    {
      "name": "Planta Importada",
      "sample_time_ms": 500,
      "variables": [
        { "id": "var_0", "name": "Temperatura", "type": "sensor", "unit": "C", "setpoint": 45.0, "pv_min": 0.0, "pv_max": 100.0 },
        { "id": "var_1", "name": "Valvula", "type": "atuador", "unit": "%", "setpoint": 0.0, "pv_min": 0.0, "pv_max": 100.0, "linked_sensor_ids": ["var_0"] }
      ],
      "driver": { "plugin_id": "missing", "plugin_name": "driver mock 1", "config": { "baud": 9600 } },
      "controllers": [
        {
          "id": "ctrl_pid_1",
          "plugin_id": "controller_pid_1",
          "plugin_name": "PID Controller 1",
          "name": "PID Temperatura",
          "controller_type": "PID",
          "active": true,
          "input_variable_ids": ["var_0"],
          "output_variable_ids": ["var_1"],
          "params": { "kp": { "type": "number", "value": 1.5, "label": "Kp" } }
        }
      ]
    }
    "#;

    let opened = open("registry.json", json).unwrap();
    let plant = PlantImportService::import_file(&mut plants, &plugins, &opened, 500, 0.5f64.to_bits()).unwrap();

    assert_eq!(plant.controllers.len(), 1);
    let controller = &plant.controllers[0];
    assert_eq!(controller.id, "ctrl_pid_1");
    assert_eq!(controller.plugin_id, "controller_pid_1");
    assert_eq!(controller.plugin_name, "PID Controller 1");
    assert_eq!(controller.input_variable_ids, vec!["var_0".to_string()]);
    assert_eq!(controller.output_variable_ids, vec!["var_1".to_string()]);
    assert!(!controller.active);
    assert_eq!(plant.driver.plugin_id, "driver_mock_1");
    assert_eq!(plants.count(), 1);
}

#[test]
fn import_file_refuses_unknown_plugins() {
    let mut plugins = PluginStore::new();
    let mut plants = PlantStore::new();
    plugins.insert(plugin("c1", "PID", PluginType::Controller)).unwrap();
    let no_driver = open("a.json", r#"{"variables": [{"name": "a", "type": "sensor"}]}"#).unwrap();
    assert_eq!(
        PlantImportService::import_file(&mut plants, &plugins, &no_driver, 100, 0.1f64.to_bits()).err(),
        Some(AppError::InvalidArgument("Arquivo da planta não contém driver configurado".to_string()))
    );
    let wrong_kind = open("a.json", r#"{"variables": [{"name": "a", "type": "sensor"}], "driver": {"plugin_id": "c1", "plugin_name": "PID"}}"#).unwrap();
    assert_eq!(
        PlantImportService::import_file(&mut plants, &plugins, &wrong_kind, 100, 0.1f64.to_bits()).err(),
        Some(AppError::InvalidArgument("Plugin 'PID' não é um driver válido".to_string()))
    );
    let missing = open("a.json", r#"{"variables": [{"name": "a", "type": "sensor"}], "driver": {"plugin_id": "zz", "plugin_name": "Serial"}}"#).unwrap();
    assert_eq!(
        PlantImportService::import_file(&mut plants, &plugins, &missing, 100, 0.1f64.to_bits()).err(),
        Some(AppError::InvalidArgument("Driver 'Serial' não está carregado no sistema".to_string()))
    );
    assert_eq!(plants.count(), 0);
}

#[test]
fn open_file_reads_controller_params_in_array_form() {
    let json = r#"
    {
      "name": "Planta Lista",
      "variables": [
        { "id": "var_0", "name": "T", "type": "sensor", "unit": "C", "setpoint": 1.0, "pv_min": 0.0, "pv_max": 10.0 },
        { "id": "var_1", "name": "U", "type": "atuador", "unit": "%", "setpoint": 0.0, "pv_min": 0.0, "pv_max": 100.0 }
      ],
      "controllers": [
        {
          "id": "ctrl_a",
          "plugin_id": "pid",
          "params": { "kp": ["number", 2, "Kp"] }
        }
      ]
    }
    "#;
    let opened = open("lista.json", json).unwrap();
    let kp = opened.controllers[0].params.iter().find(|p| p.key == "kp").expect("kp");
    assert_eq!(kp.param.param_type, ControllerParamType::Number);
    assert!(matches!(kp.param.value, SchemaFieldValue::Int(2)));
    assert_eq!(kp.param.label, "Kp");

    let short = json.replace(r#"["number", 2, "Kp"]"#, r#"["number", 2]"#);
    assert_eq!(
        open("lista.json", &short).err(),
        Some(AppError::InvalidArgument("controllers[0].params inválido: formato não reconhecido".to_string()))
    );
}
