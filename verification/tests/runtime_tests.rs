use senamby::error::AppError;
use senamby::json::{JsonMember, JsonNumber, JsonValue};
use senamby::models::{
    ControllerParam, ControllerParamType, ControllerRuntimeStatus, FloatNumber, ParamEntry, Plant, PlantController,
    PlantDriver, PlantStats, PlantVariable, PluginDependency, PluginRegistry, PluginRuntime, PluginSchemaField,
    PluginType, SavePlantControllerConfigRequest, SchemaFieldType, SchemaFieldValue, VariableType,
};
use senamby::plant_store::PlantStore;
use senamby::plugin_store::PluginStore;
use senamby::runtime_bootstrap::{
    begin_connect_resolution, build_bootstrap_payload, build_runtime_controller_payloads,
    continue_connect_resolution, continue_connect_resolution_in, resolve_plugin_for_runtime, store_resolved_plant, ConnectStep,
    ResolvedRuntimeController, RuntimePluginResolution,
};
use senamby::runtime_environment::{
    collect_dependency_specs, compute_env_hash, dedupe_runtime_plugins, fnv1a_64, hex_text, text_less, utf8_bytes,
};
use senamby::runtime_monitor::{
    check_handshake, handle_stdout_event, handshake_timeout, stopped_status, HandshakeState, RuntimeCyclePhase,
    RuntimeEnvelope, RuntimeLifecycleState, RuntimeMetrics, RuntimeSession, StdoutEvent,
};
use senamby::runtime_service::{
    check_runtime_start, collect_incompatible_controller_ids, needs_driver_write_check, new_runtime_id,
    plan_runtime_controller_validation, require_driver,
    should_validate_driver_write_on_controller_save, validation_targets, will_have_active_controllers,
    ControllerSyncStep, DriverRuntimeService, RuntimeControllerValidationPlan,
};

fn create_test_plant(id: &str, name: &str) -> Plant {
    Plant {
        id: id.to_string(),
        name: name.to_string(),
        sample_time_ms: 100,
        variables: vec![
            PlantVariable {
                id: "var_0".to_string(),
                name: "Temperatura".to_string(),
                var_type: VariableType::Sensor,
                unit: "C".to_string(),
                setpoint: 42.0f64.to_bits(),
                pv_min: 0.0f64.to_bits(),
                pv_max: 100.0f64.to_bits(),
                linked_sensor_ids: None,
            },
            PlantVariable {
                id: "var_1".to_string(),
                name: "Valvula".to_string(),
                var_type: VariableType::Atuador,
                unit: "%".to_string(),
                setpoint: 0.0f64.to_bits(),
                pv_min: 0.0f64.to_bits(),
                pv_max: 100.0f64.to_bits(),
                linked_sensor_ids: Some(vec!["var_0".to_string()]),
            },
        ],
        driver: PlantDriver {
            plugin_id: "driver_plugin".to_string(),
            plugin_name: "Driver Python".to_string(),
            runtime: PluginRuntime::Python,
            source_file: Some("main.py".to_string()),
            source_code: None,
            config: vec![],
        },
        controllers: Vec::new(),
        connected: true,
        paused: false,
        stats: PlantStats { dt: 0.1f64.to_bits(), uptime: 0 },
    }
}

fn controller(id: &str, name: &str, active: bool, status: ControllerRuntimeStatus) -> PlantController {
    PlantController {
        id: id.to_string(),
        plugin_id: "controller_plugin".to_string(),
        plugin_name: name.to_string(),
        name: name.to_string(),
        controller_type: "PID".to_string(),
        active,
        input_variable_ids: vec!["var_0".to_string()],
        output_variable_ids: vec!["var_1".to_string()],
        params: vec![],
        runtime_status: status,
    }
}

fn save_request(plant_id: &str, controller_id: &str, name: &str, active: bool) -> SavePlantControllerConfigRequest {
    SavePlantControllerConfigRequest {
        plant_id: plant_id.to_string(),
        controller_id: controller_id.to_string(),
        plugin_id: Some("controller_plugin".to_string()),
        name: name.to_string(),
        controller_type: "PID".to_string(),
        active,
        input_variable_ids: vec!["var_0".to_string()],
        output_variable_ids: vec!["var_1".to_string()],
        params: vec![],
    }
}

fn create_test_plugin(id: &str, name: &str, plugin_type: PluginType, entry_class: &str) -> PluginRegistry {
    PluginRegistry {
        id: id.to_string(),
        name: name.to_string(),
        plugin_type,
        runtime: PluginRuntime::Python,
        entry_class: entry_class.to_string(),
        schema: vec![],
        source_file: Some("main.py".to_string()),
        source_code: None,
        dependencies: vec![],
        description: None,
        version: None,
        author: None,
    }
}

fn create_plugin(id: &str, name: &str) -> PluginRegistry {
    create_test_plugin(id, name, PluginType::Driver, "Driver")
}

#[test]
fn plan_runtime_controller_validation_skips_reloading_for_synced_active_controller_updates() {
    let mut plant = create_test_plant("plant_validation_none", "Plant Validation None");
    plant.connected = true;
    plant.controllers.push(controller("ctrl_running", "Controller Running", true, ControllerRuntimeStatus::Synced));

    let plan = plan_runtime_controller_validation(
        &plant,
        plant.controllers.first(),
        &save_request(&plant.id, "ctrl_running", "Controller Running", true),
    );

    assert_eq!(plan, RuntimeControllerValidationPlan::Unneeded);
}

#[test]
fn plan_runtime_controller_validation_targets_newly_activated_controller() {
    let mut plant = create_test_plant("plant_validation_targeted", "Plant Validation Targeted");
    plant.connected = true;
    plant.controllers.push(controller("ctrl_idle", "Controller Idle", false, ControllerRuntimeStatus::Synced));

    let plan = plan_runtime_controller_validation(
        &plant,
        plant.controllers.first(),
        &save_request(&plant.id, "ctrl_idle", "Controller Idle", true),
    );

    assert_eq!(plan, RuntimeControllerValidationPlan::Targeted("ctrl_idle".to_string()));
}

#[test]
fn plan_runtime_controller_validation_requires_full_check_when_any_active_controller_is_pending() {
    let mut plant = create_test_plant("plant_validation_all", "Plant Validation All");
    plant.connected = true;
    plant.controllers.push(controller("ctrl_pending", "Controller Pending", true, ControllerRuntimeStatus::PendingRestart));

    let plan = plan_runtime_controller_validation(
        &plant,
        plant.controllers.first(),
        &save_request(&plant.id, "ctrl_pending", "Controller Pending", true),
    );

    assert_eq!(plan, RuntimeControllerValidationPlan::All);
}

#[test]
fn plan_runtime_controller_validation_skips_disconnected_plants() {
    let mut plant = create_test_plant("plant_off", "Plant Off");
    plant.connected = false;
    plant.controllers.push(controller("ctrl_pending", "Controller Pending", true, ControllerRuntimeStatus::PendingRestart));
    let plan = plan_runtime_controller_validation(
        &plant,
        plant.controllers.first(),
        &save_request(&plant.id, "ctrl_pending", "Controller Pending", true),
    );
    assert_eq!(plan, RuntimeControllerValidationPlan::Unneeded);
}

#[test]
fn driver_write_check_only_when_first_controller_becomes_active() {
    let mut plant = create_test_plant("plant_w", "Plant W");
    let request = save_request(&plant.id, "ctrl_a", "A", true);
    assert!(should_validate_driver_write_on_controller_save(&plant, &request));
    assert!(will_have_active_controllers(&plant, &request));
    plant.controllers.push(controller("ctrl_b", "B", true, ControllerRuntimeStatus::Synced));
    assert!(!should_validate_driver_write_on_controller_save(&plant, &request));
    let inactive = save_request(&plant.id, "ctrl_b", "B", false);
    assert!(!should_validate_driver_write_on_controller_save(&plant, &inactive));
    assert!(!will_have_active_controllers(&plant, &inactive));
}

#[test]
fn incompatible_controllers_follow_the_plan() {
    let ids = vec!["ctrl_a".to_string(), "ctrl_b".to_string()];
    let targeted = validation_targets(&RuntimeControllerValidationPlan::Targeted("ctrl_b".to_string()), &ids);
    assert_eq!(targeted, vec![false, true]);
    let all = validation_targets(&RuntimeControllerValidationPlan::All, &ids);
    assert_eq!(all, vec![true, true]);
    assert_eq!(validation_targets(&RuntimeControllerValidationPlan::Unneeded, &ids), vec![false, false]);
    let unknown_env = collect_incompatible_controller_ids(&ids, &all, false, &vec![false, false]);
    assert_eq!(unknown_env, ids);
    let checked = collect_incompatible_controller_ids(&ids, &all, true, &vec![false, true]);
    assert_eq!(checked, vec!["ctrl_b".to_string()]);
    let none = collect_incompatible_controller_ids(&ids, &targeted, true, &vec![true, false]);
    assert!(none.is_empty());
}

#[test]
fn remove_controller_rejects_active_synced_controller_while_runtime_is_running() {
    let mut store = PlantStore::new();
    let mut plant = create_test_plant("plant_remove_active", "Plant Remove Active");
    plant.controllers.push(PlantController {
        params: vec![ParamEntry {
            key: "kp".to_string(),
            param: ControllerParam {
                param_type: ControllerParamType::Number,
                value: SchemaFieldValue::Float(FloatNumber { bits: 1.0f64.to_bits(), text: "1".to_string() }),
                label: "Kp".to_string(),
            },
        }],
        ..controller("ctrl_running", "Controller Running", true, ControllerRuntimeStatus::Synced)
    });
    store.insert(plant.clone()).unwrap();

    let stored = store.get(&plant.id).unwrap();
    let error = DriverRuntimeService::check_controller_removal(&stored, &"ctrl_running".to_string()).unwrap_err();

    assert!(matches!(error, AppError::InvalidArgument(_)));
    assert!(error.display_text().contains("Desative-o antes"));
}

#[test]
fn remove_controller_allows_inactive_or_disconnected() {
    let mut plant = create_test_plant("plant_idle", "Plant Idle");
    plant.controllers.push(controller("ctrl_idle", "Controller Idle", false, ControllerRuntimeStatus::Synced));
    assert!(DriverRuntimeService::check_controller_removal(&plant, &"ctrl_idle".to_string()).is_ok());
    let missing = DriverRuntimeService::check_controller_removal(&plant, &"ctrl_x".to_string()).unwrap_err();
    assert_eq!(
        missing,
        AppError::NotFound("Controlador 'ctrl_x' não encontrado na planta 'Plant Idle'".to_string())
    );
    plant.connected = false;
    plant.controllers[0].active = true;
    assert!(DriverRuntimeService::check_controller_removal(&plant, &"ctrl_idle".to_string()).is_ok());
}

#[test]
fn pause_and_resume_only_toggle_visual_state_without_sending_runtime_commands() {
    let mut store = PlantStore::new();
    let plant = create_test_plant("plant_pause", "Plant Pause");
    store.insert(plant.clone()).unwrap();

    let paused = DriverRuntimeService::pause(&mut store, &plant.id).unwrap();
    assert!(paused.paused);

    let resumed = DriverRuntimeService::resume(&mut store, &plant.id).unwrap();
    assert!(!resumed.paused);
    assert!(resumed.connected);
}

#[test]
fn pause_requires_a_connected_plant() {
    let mut store = PlantStore::new();
    let mut plant = create_test_plant("plant_off", "Plant Off");
    plant.connected = false;
    store.insert(plant).unwrap();
    assert_eq!(
        DriverRuntimeService::pause(&mut store, "plant_off").unwrap_err(),
        AppError::InvalidArgument("Planta precisa estar conectada para pausar".to_string())
    );
    assert_eq!(
        DriverRuntimeService::resume(&mut store, "plant_off").unwrap_err(),
        AppError::InvalidArgument("Planta precisa estar conectada para retomar".to_string())
    );
}

#[test]
fn close_plant_stops_runtime_and_preserves_registry() {
    let mut store = PlantStore::new();
    let mut plant = create_test_plant("plant_close", "Plant Close Runtime");
    plant.controllers.push(controller("ctrl_a", "A", true, ControllerRuntimeStatus::Synced));
    store.insert(plant.clone()).unwrap();

    let closed = DriverRuntimeService::close(&mut store, &plant.id).unwrap();

    assert_eq!(closed.id, plant.id);
    assert!(!closed.connected);
    assert!(!closed.paused);
    assert!(!closed.controllers[0].active);
    assert!(!store.contains(&plant.id));
}

#[test]
fn connect_marks_controllers_in_step_and_refuses_twice() {
    let mut store = PlantStore::new();
    let mut plant = create_test_plant("plant_conn", "Plant Conn");
    plant.connected = false;
    plant.paused = true;
    plant.controllers.push(controller("ctrl_a", "A", true, ControllerRuntimeStatus::PendingRestart));
    store.insert(plant).unwrap();
    assert!(DriverRuntimeService::begin_connect(&store, "plant_conn").is_ok());
    let connected = DriverRuntimeService::mark_connected(&mut store, "plant_conn").unwrap();
    assert!(connected.connected && !connected.paused);
    assert_eq!(connected.controllers[0].runtime_status, ControllerRuntimeStatus::Synced);
    assert_eq!(
        DriverRuntimeService::begin_connect(&store, "plant_conn").unwrap_err(),
        AppError::InvalidArgument("Planta já está conectada".to_string())
    );
    let off = DriverRuntimeService::disconnect(&mut store, "plant_conn").unwrap();
    assert!(!off.connected && !off.paused);
}

#[test]
fn pending_statuses_mark_only_listed_active_controllers() {
    let mut store = PlantStore::new();
    let mut plant = create_test_plant("plant_pend", "Plant Pend");
    plant.controllers.push(controller("ctrl_a", "A", true, ControllerRuntimeStatus::Synced));
    plant.controllers.push(controller("ctrl_b", "B", false, ControllerRuntimeStatus::Synced));
    plant.controllers.push(controller("ctrl_c", "C", true, ControllerRuntimeStatus::PendingRestart));
    store.insert(plant).unwrap();
    let pending = vec!["ctrl_a".to_string(), "ctrl_b".to_string()];
    let updated = DriverRuntimeService::set_pending_controller_runtime_statuses(&mut store, "plant_pend", &pending).unwrap();
    assert_eq!(updated.controllers[0].runtime_status, ControllerRuntimeStatus::PendingRestart);
    assert_eq!(updated.controllers[1].runtime_status, ControllerRuntimeStatus::Synced);
    assert_eq!(updated.controllers[2].runtime_status, ControllerRuntimeStatus::Synced);
    let all = DriverRuntimeService::set_all_controller_runtime_statuses(&mut store, "plant_pend", ControllerRuntimeStatus::Synced).unwrap();
    assert!(all.controllers.iter().all(|c| c.runtime_status == ControllerRuntimeStatus::Synced));
}

#[test]
fn runtime_start_checks() {
    let driver = create_test_plugin("d", "Driver", PluginType::Driver, "Driver");
    assert!(check_runtime_start(false, "p1", &driver).is_ok());
    assert_eq!(
        check_runtime_start(true, "p1", &driver).unwrap_err(),
        AppError::InvalidArgument("Planta 'p1' já está em execução".to_string())
    );
    let controller = create_test_plugin("c", "Ctrl", PluginType::Controller, "Ctrl");
    assert_eq!(
        check_runtime_start(false, "p1", &controller).unwrap_err(),
        AppError::InvalidArgument("Plugin selecionado não é um driver".to_string())
    );
    let native = PluginRegistry { runtime: PluginRuntime::RustNative, ..create_test_plugin("d", "Driver", PluginType::Driver, "Driver") };
    assert_eq!(
        check_runtime_start(false, "p1", &native).unwrap_err(),
        AppError::InvalidArgument("A runtime de driver atual suporta apenas plugins Python".to_string())
    );
    let id = new_runtime_id();
    assert!(id.starts_with("rt_"));
    assert_eq!(id.len(), 35);
    assert!(id[3..].chars().all(|c| c.is_ascii_hexdigit()));
    assert_ne!(id, new_runtime_id());
}

#[test]
fn dedupe_runtime_plugins_preserves_single_instance_per_id() {
    let deduped = dedupe_runtime_plugins(vec![
        create_plugin("plugin_a", "Driver A"),
        create_plugin("plugin_a", "Driver A"),
        create_plugin("plugin_b", "Driver B"),
    ]);

    assert_eq!(deduped.len(), 2);
    assert_eq!(deduped[0].id, "plugin_a");
    assert_eq!(deduped[1].id, "plugin_b");
}

#[test]
fn dedupe_keeps_the_first_of_each_id() {
    let deduped = dedupe_runtime_plugins(vec![
        create_plugin("plugin_a", "First"),
        create_plugin("plugin_b", "B"),
        create_plugin("plugin_a", "Second"),
    ]);
    assert_eq!(deduped.len(), 2);
    assert_eq!(deduped[0].name, "First");
}

fn with_dependencies(id: &str, entry_class: &str, deps: &[(&str, &str)]) -> PluginRegistry {
    PluginRegistry {
        entry_class: entry_class.to_string(),
        dependencies: deps
            .iter()
            .map(|(n, v)| PluginDependency { name: n.to_string(), version: v.to_string() })
            .collect(),
        ..create_plugin(id, id)
    }
}

#[test]
fn dependency_specs_are_sorted_and_unique() {
    let plugins = vec![
        with_dependencies("plugin_a", "Driver", &[("scipy", ""), ("numpy", "1.0")]),
        with_dependencies("plugin_b", "Controller", &[("numpy", "1.0"), ("Numpy", " "), ("pandas", "2.1")]),
    ];
    assert_eq!(
        collect_dependency_specs(&plugins),
        vec!["Numpy".to_string(), "numpy==1.0".to_string(), "pandas==2.1".to_string(), "scipy".to_string()]
    );
    assert!(collect_dependency_specs(&vec![create_plugin("x", "x")]).is_empty());
}

#[test]
fn env_hash_of_known_material() {
    let plugins = vec![
        with_dependencies("plugin_a", "Driver", &[("scipy", ""), ("numpy", "1.0")]),
        with_dependencies("plugin_b", "Controller", &[("numpy", "1.0")]),
    ];
    assert_eq!(compute_env_hash(&plugins), "027fb7de566688f9");
    assert_eq!(compute_env_hash(&vec![with_dependencies("plugin_a", "Driver", &[])]), "11c9faf22a5f660b");
    assert_eq!(compute_env_hash(&vec![with_dependencies("plugin_ç", "Drïver", &[])]), "5906db4babcd4e07");
}

#[test]
fn env_hash_ignores_dependency_order_and_repeats() {
    let a = vec![with_dependencies("p", "D", &[("a", "1"), ("b", "2"), ("a", "1")])];
    let b = vec![with_dependencies("p", "D", &[("b", "2"), ("a", "1")])];
    assert_eq!(compute_env_hash(&a), compute_env_hash(&b));
    let c = vec![with_dependencies("p", "D", &[("b", "3"), ("a", "1")])];
    assert_ne!(compute_env_hash(&a), compute_env_hash(&c));
}

#[test]
fn fnv_utf8_and_hex_building_blocks() {
    assert_eq!(fnv1a_64(&vec![]), 0xcbf29ce484222325);
    assert_eq!(fnv1a_64(&b"a".to_vec()), 0xaf63dc4c8601ec8c);
    assert_eq!(utf8_bytes("aé€😀"), "aé€😀".as_bytes().to_vec());
    assert_eq!(hex_text(0xab, 4), "00ab");
    assert_eq!(hex_text(u64::MAX, 16), "ffffffffffffffff");
    assert!(text_less("abc", "abd"));
    assert!(text_less("ab", "abc"));
    assert!(!text_less("abc", "abc"));
    assert!(text_less("Z", "a"));
    assert!(!text_less("é", "z"));
}

fn session() -> RuntimeSession {
    RuntimeSession {
        plant_id: "plant_1".to_string(),
        runtime_id: "rt_1".to_string(),
        configured_sample_time_ms: 100,
        configured_dt_ms: 100.0f64.to_bits(),
    }
}

fn number(value: f64) -> JsonValue {
    JsonValue::Number(JsonNumber {
        as_u64: None,
        as_i64: None,
        as_f64: Some(FloatNumber { bits: value.to_bits(), text: value.to_string() }),
    })
}

fn message(kind: &str, payload: JsonValue) -> StdoutEvent {
    StdoutEvent::Line(Ok(RuntimeEnvelope { msg_type: kind.to_string(), payload }))
}

#[test]
fn handshake_follows_ready_and_connected_reports() {
    let mut metrics = RuntimeMetrics::starting();
    let mut handshake = HandshakeState::new();
    let s = session();
    assert!(check_handshake(&handshake, false).is_none());

    let out = handle_stdout_event(&mut metrics, &mut handshake, &s, message("ready", JsonValue::Null), 0);
    assert!(handshake.ready && !handshake.connected && out.handshake_changed && !out.stop);
    assert_eq!(metrics.lifecycle_state, RuntimeLifecycleState::Ready);
    let status = out.status.unwrap();
    assert_eq!(status.lifecycle_state, RuntimeLifecycleState::Ready);
    assert_eq!(status.effective_dt_ms, 100.0f64.to_bits());

    let out = handle_stdout_event(&mut metrics, &mut handshake, &s, message("connected", JsonValue::Null), 0);
    assert!(handshake.connected && out.handshake_changed);
    assert_eq!(metrics.lifecycle_state, RuntimeLifecycleState::Running);
    assert_eq!(metrics.cycle_phase, RuntimeCyclePhase::ReadInputs);
    assert!(matches!(check_handshake(&handshake, true), Some(Ok(()))));
}

#[test]
fn error_report_faults_the_runtime_and_fails_the_handshake() {
    let mut metrics = RuntimeMetrics::starting();
    let mut handshake = HandshakeState::new();
    let payload = JsonValue::Object(vec![JsonMember {
        key: "message".to_string(),
        value: JsonValue::String("driver quebrou".to_string()),
    }]);
    let out = handle_stdout_event(&mut metrics, &mut handshake, &session(), message("error", payload), 0);
    assert_eq!(out.error_message.as_deref(), Some("driver quebrou"));
    assert_eq!(metrics.lifecycle_state, RuntimeLifecycleState::Faulted);
    assert_eq!(out.status.unwrap().lifecycle_state, RuntimeLifecycleState::Faulted);
    assert_eq!(
        check_handshake(&handshake, false).unwrap().unwrap_err(),
        AppError::IoError("Falha durante handshake da runtime: driver quebrou".to_string())
    );

    let mut other = HandshakeState::new();
    let out = handle_stdout_event(&mut metrics, &mut other, &session(), message("error", JsonValue::Null), 0);
    assert_eq!(out.error_message.as_deref(), Some("Erro na runtime Python"));
    assert_eq!(check_handshake(&HandshakeState::new(), true).unwrap().unwrap_err(), handshake_timeout());
}

#[test]
fn telemetry_updates_metrics_and_counts_late_cycles() {
    let mut metrics = RuntimeMetrics::starting();
    let mut handshake = HandshakeState::new();
    let payload = JsonValue::Object(vec![
        JsonMember { key: "effective_dt_ms".to_string(), value: number(101.5) },
        JsonMember { key: "cycle_late".to_string(), value: JsonValue::Bool(true) },
        JsonMember { key: "uptime_s".to_string(), value: number(12.0) },
    ]);
    let out = handle_stdout_event(&mut metrics, &mut handshake, &session(), message("telemetry", payload), 1234);
    assert_eq!(metrics.effective_dt_ms, 101.5f64.to_bits());
    assert_eq!(metrics.cycle_duration_ms, 0);
    assert!(metrics.cycle_late);
    assert_eq!(metrics.late_cycle_count, 1);
    assert_eq!(metrics.last_telemetry_at, Some(1234));
    assert_eq!(metrics.cycle_phase, RuntimeCyclePhase::PublishTelemetry);
    assert_eq!(out.stats_dt_ms, Some(101.5f64.to_bits()));
    assert_eq!(out.stats_uptime_s, Some(12.0f64.to_bits()));
    assert!(out.telemetry.is_some());

    let out = handle_stdout_event(&mut metrics, &mut handshake, &session(), message("telemetry", JsonValue::Null), 5);
    assert_eq!(metrics.effective_dt_ms, 100.0f64.to_bits());
    assert!(!metrics.cycle_late);
    assert_eq!(metrics.late_cycle_count, 1);
    assert_eq!(out.stats_uptime_s, Some(0));

    metrics.late_cycle_count = u64::MAX;
    let out = handle_stdout_event(&mut metrics, &mut handshake, &session(), message("cycle_overrun", JsonValue::Null), 5);
    assert_eq!(metrics.late_cycle_count, u64::MAX);
    assert!(metrics.cycle_late && out.status.is_none() && !out.stop);
}

#[test]
fn stopped_and_broken_output_end_the_reading() {
    let mut metrics = RuntimeMetrics::starting();
    let mut handshake = HandshakeState::new();
    let out = handle_stdout_event(&mut metrics, &mut handshake, &session(), message("stopped", JsonValue::Null), 0);
    assert!(out.stop);
    assert_eq!(metrics.lifecycle_state, RuntimeLifecycleState::Stopped);
    assert_eq!(out.status.unwrap().cycle_phase, RuntimeCyclePhase::SleepUntilDeadline);

    let out = handle_stdout_event(&mut metrics, &mut handshake, &session(), StdoutEvent::ReadFailed("eof".to_string()), 0);
    assert!(out.stop);
    assert_eq!(out.error_message.as_deref(), Some("Falha ao ler stdout do driver: eof"));

    let out = handle_stdout_event(&mut metrics, &mut handshake, &session(), StdoutEvent::Line(Err("x".to_string())), 0);
    assert!(!out.stop);
    assert_eq!(out.error_message.as_deref(), Some("Mensagem inválida recebida do driver: x"));

    let before = metrics;
    let out = handle_stdout_event(&mut metrics, &mut handshake, &session(), message("heartbeat", JsonValue::Null), 0);
    assert_eq!(metrics, before);
    assert!(out.status.is_none() && out.error_message.is_none() && !out.stop);

    let status = stopped_status(&session(), &metrics);
    assert_eq!(status.lifecycle_state, RuntimeLifecycleState::Stopped);
    assert!(!status.cycle_late);
}

fn plugin_store_with(plugins: Vec<PluginRegistry>) -> PluginStore {
    let mut store = PluginStore::new();
    for plugin in plugins {
        store.insert(plugin).unwrap();
    }
    store
}

#[test]
fn plugin_lookup_falls_back_to_name_then_asks_for_the_workspace() {
    let store = plugin_store_with(vec![
        create_test_plugin("driver_plugin", "Driver Python", PluginType::Driver, "Driver"),
        create_test_plugin("ctrl_plugin", "PID", PluginType::Controller, "Pid"),
    ]);
    match resolve_plugin_for_runtime(&store, "driver_plugin", "", PluginType::Driver, false) {
        RuntimePluginResolution::Found(p) => assert_eq!(p.id, "driver_plugin"),
        other => panic!("{other:?}"),
    }
    match resolve_plugin_for_runtime(&store, "old_id", "  pid ", PluginType::Controller, false) {
        RuntimePluginResolution::Found(p) => assert_eq!(p.id, "ctrl_plugin"),
        other => panic!("{other:?}"),
    }
    assert!(matches!(
        resolve_plugin_for_runtime(&store, "driver_plugin", "", PluginType::Controller, false),
        RuntimePluginResolution::LoadWorkspace
    ));
    assert!(matches!(
        resolve_plugin_for_runtime(&store, "missing", "PID", PluginType::Driver, true),
        RuntimePluginResolution::Missing
    ));
}

#[test]
fn connect_resolution_syncs_driver_and_inactive_controllers() {
    let mut driver = create_test_plugin("driver_new", "Driver Python", PluginType::Driver, "Driver");
    driver.source_file = Some("drv.py".to_string());
    let mut ctrl = create_test_plugin("ctrl_new", "PID", PluginType::Controller, "Pid");
    ctrl.schema = vec![PluginSchemaField {
        name: "kp".to_string(),
        field_type: SchemaFieldType::Bool,
        default_value: Some(SchemaFieldValue::Bool(true)),
        description: None,
    }];
    let plugins = plugin_store_with(vec![driver.clone(), ctrl.clone()]);

    let mut plant = create_test_plant("plant_r", "Plant R");
    plant.driver.source_code = Some("old".to_string());
    plant.controllers.push(PlantController {
        plugin_id: "ctrl_old".to_string(),
        plugin_name: "pid".to_string(),
        ..controller("ctrl_a", "A", false, ControllerRuntimeStatus::Synced)
    });
    plant.controllers.push(PlantController {
        plugin_id: "unknown".to_string(),
        plugin_name: "".to_string(),
        ..controller("ctrl_b", "B", false, ControllerRuntimeStatus::Synced)
    });

    let start = begin_connect_resolution(plant, Some(driver)).unwrap();
    assert!(start.plant_changed);
    assert_eq!(start.plant.driver.plugin_id, "driver_new");
    assert_eq!(start.plant.driver.source_file.as_deref(), Some("drv.py"));
    assert_eq!(start.plant.driver.source_code, None);

    let waiting = match continue_connect_resolution(&plugins, start, false).unwrap() {
        ConnectStep::LoadWorkspace(r) => r,
        ConnectStep::Resolved(_) => panic!("the unknown plugin asks for the workspace"),
    };
    assert_eq!(waiting.next_controller, 1);
    assert_eq!(waiting.plant.controllers[0].plugin_id, "ctrl_new");
    assert_eq!(waiting.plant.controllers[0].params.len(), 1);
    assert_eq!(waiting.runtime_plugins.len(), 2);

    let done = match continue_connect_resolution(&plugins, waiting, true).unwrap() {
        ConnectStep::Resolved(r) => r,
        ConnectStep::LoadWorkspace(_) => panic!("loaded already"),
    };
    assert_eq!(done.next_controller, 2);
    assert!(done.active_controllers.is_empty());
    assert_eq!(done.plant.controllers[1].plugin_id, "unknown");

    let mut plants = PlantStore::new();
    plants.insert(create_test_plant("plant_r", "Plant R")).unwrap();
    store_resolved_plant(&mut plants, &done).unwrap();
    assert_eq!(plants.get("plant_r").unwrap().driver.plugin_id, "driver_new");
}

#[test]
fn connect_resolution_refusals() {
    let plant = create_test_plant("plant_r", "Plant R");
    assert_eq!(
        begin_connect_resolution(plant.clone(), None).unwrap_err(),
        AppError::NotFound("Driver da planta 'Plant R' não foi encontrado".to_string())
    );
    let native = PluginRegistry { runtime: PluginRuntime::RustNative, ..create_plugin("driver_plugin", "Driver Python") };
    assert_eq!(
        begin_connect_resolution(plant.clone(), Some(native)).unwrap_err(),
        AppError::InvalidArgument("A runtime atual suporta apenas drivers Python".to_string())
    );

    let mut with_active = plant.clone();
    with_active.controllers.push(controller("ctrl_a", "A", true, ControllerRuntimeStatus::Synced));
    let start = begin_connect_resolution(with_active.clone(), Some(create_plugin("driver_plugin", "Driver Python"))).unwrap();
    assert!(!start.plant_changed);
    let empty = PluginStore::new();
    assert_eq!(
        continue_connect_resolution(&empty, start, true).unwrap_err(),
        AppError::NotFound("Controlador 'A' da planta 'Plant R' não está carregado".to_string())
    );

    let native_ctrl = PluginRegistry {
        runtime: PluginRuntime::RustNative,
        ..create_test_plugin("controller_plugin", "A", PluginType::Controller, "A")
    };
    let plugins = plugin_store_with(vec![native_ctrl]);
    let start = begin_connect_resolution(with_active, Some(create_plugin("driver_plugin", "Driver Python"))).unwrap();
    assert_eq!(
        continue_connect_resolution(&plugins, start, true).unwrap_err(),
        AppError::InvalidArgument("O controlador 'A' precisa ser Python para executar na runtime atual".to_string())
    );
}

#[test]
fn bootstrap_payload_carries_the_plant_and_its_controllers() {
    let mut plant = create_test_plant("plant_b", "Plant B");
    plant.controllers.push(controller("ctrl_a", "A", true, ControllerRuntimeStatus::Synced));
    let mut ctrl_plugin = create_test_plugin("controller_plugin", "A", PluginType::Controller, "Pid");
    ctrl_plugin.source_file = None;
    let resolved = vec![ResolvedRuntimeController {
        instance: plant.controllers[0].clone(),
        plugin: ctrl_plugin,
        plugin_dir: vec!["docs".to_string(), "controllers".to_string(), "A".to_string()],
    }];
    let driver = create_plugin("driver_plugin", "Driver Python");
    let dir = |name: &str| vec!["rt".to_string(), name.to_string()];
    let payload = build_bootstrap_payload(
        "rt_1",
        &plant,
        &driver,
        dir("driver"),
        &resolved,
        dir("runtime"),
        dir("python"),
        dir("runner.py"),
        dir("bootstrap.json"),
        12000,
        4000,
    );
    assert_eq!(payload.driver.plugin_id, "driver_plugin");
    assert_eq!(payload.driver.source_file, "main.py");
    assert_eq!(payload.driver.class_name, "Driver");
    assert_eq!(payload.controllers.len(), 1);
    assert_eq!(payload.controllers[0].source_file, "main.py");
    assert_eq!(payload.controllers[0].class_name, "Pid");
    assert_eq!(payload.controllers[0].plugin_dir, vec!["docs", "controllers", "A"]);
    assert_eq!(payload.plant.sensor_ids, vec!["var_0"]);
    assert_eq!(payload.plant.actuator_ids, vec!["var_1"]);
    assert_eq!(payload.plant.variables[0].linked_sensor_ids, Vec::<String>::new());
    assert_eq!(payload.plant.variables[1].linked_sensor_ids, vec!["var_0"]);
    assert_eq!(payload.plant.setpoints.len(), 2);
    assert_eq!(payload.plant.setpoints[0].value, 42.0f64.to_bits());
    assert_eq!(payload.runtime.id, "rt_1");
    assert_eq!(payload.runtime.timing.owner, "runtime");
    assert_eq!(payload.runtime.timing.clock, "monotonic");
    assert_eq!(payload.runtime.timing.strategy, "deadline");
    assert_eq!(payload.runtime.timing.sample_time_ms, 100);
    assert_eq!(payload.runtime.supervision.owner, "rust");
    assert_eq!(payload.runtime.supervision.startup_timeout_ms, 12000);
    assert_eq!(payload.runtime.paths.bootstrap_path, vec!["rt", "bootstrap.json"]);

    let controllers = build_runtime_controller_payloads(&resolved);
    assert_eq!(controllers.len(), 1);
    assert!(controllers[0].active);
    assert_eq!(controllers[0].input_variable_ids, vec!["var_0"]);
}

#[test]
fn driver_write_check_needs_a_found_driver() {
    let mut plant = create_test_plant("plant_d", "Plant D");
    assert!(needs_driver_write_check(&plant, &save_request("plant_d", "ctrl_a", "A", true)));
    assert!(!needs_driver_write_check(&plant, &save_request("plant_d", "ctrl_a", "A", false)));
    plant.controllers.push(controller("ctrl_b", "B", true, ControllerRuntimeStatus::Synced));
    assert!(!needs_driver_write_check(&plant, &save_request("plant_d", "ctrl_a", "A", true)));
    assert_eq!(
        require_driver(None, &plant).unwrap_err(),
        AppError::NotFound("Driver da planta 'Plant D' não foi encontrado".to_string())
    );
    assert_eq!(require_driver(Some(create_plugin("d", "D")), &plant).unwrap().id, "d");
}

#[test]
fn connect_resolution_places_active_controllers_under_the_documents_directory() {
    let ctrl = create_test_plugin("controller_plugin", "A", PluginType::Controller, "A");
    let plugins = plugin_store_with(vec![ctrl]);
    let mut plant = create_test_plant("plant_d", "Plant D");
    plant.controllers.push(controller("ctrl_a", "A", true, ControllerRuntimeStatus::Synced));
    let driver = create_plugin("driver_plugin", "Driver Python");

    let start = begin_connect_resolution(plant.clone(), Some(driver.clone())).unwrap();
    let docs = Some("/home/ana/Documentos".to_string());
    let done = match continue_connect_resolution_in(&plugins, start, true, &docs).unwrap() {
        ConnectStep::Resolved(r) => r,
        ConnectStep::LoadWorkspace(_) => panic!("the plugin is in the store"),
    };
    assert_eq!(done.active_controllers.len(), 1);
    assert_eq!(
        done.active_controllers[0].plugin_dir,
        ["/home/ana/Documentos", "Senamby/workspace", "controllers", "A"]
    );

    let start = begin_connect_resolution(plant, Some(driver.clone())).unwrap();
    assert_eq!(
        continue_connect_resolution_in(&plugins, start, true, &None).unwrap_err(),
        AppError::IoError("Não foi possível localizar o diretório Documentos".to_string())
    );

    let idle = create_test_plant("plant_e", "Plant E");
    let start = begin_connect_resolution(idle, Some(driver)).unwrap();
    assert!(matches!(continue_connect_resolution_in(&plugins, start, true, &None).unwrap(), ConnectStep::Resolved(_)));
}

#[test]
fn controller_sync_updates_the_runtime_only_when_every_controller_loads() {
    let mut store = PlantStore::new();
    let mut plant = create_test_plant("plant_s", "Plant S");
    plant.controllers.push(controller("ctrl_a", "A", true, ControllerRuntimeStatus::PendingRestart));
    plant.controllers.push(controller("ctrl_b", "B", true, ControllerRuntimeStatus::Synced));
    store.insert(plant).unwrap();

    assert_eq!(DriverRuntimeService::controller_sync_step(&vec![]), ControllerSyncStep::UpdateRuntime);
    let synced = DriverRuntimeService::finish_controller_sync(&mut store, "plant_s", &vec![]).unwrap();
    assert!(synced.controllers.iter().all(|c| c.runtime_status == ControllerRuntimeStatus::Synced));

    let pending = vec!["ctrl_b".to_string()];
    assert_eq!(DriverRuntimeService::controller_sync_step(&pending), ControllerSyncStep::KeepRuntime);
    let marked = DriverRuntimeService::finish_controller_sync(&mut store, "plant_s", &pending).unwrap();
    assert_eq!(marked.controllers[1].runtime_status, ControllerRuntimeStatus::PendingRestart);
    assert_eq!(
        DriverRuntimeService::finish_controller_sync(&mut store, "nope", &pending).unwrap_err(),
        AppError::NotFound("Planta 'nope' não encontrada".to_string())
    );
}
