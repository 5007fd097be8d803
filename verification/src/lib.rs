//! The verified core of Senamby: the stores of plugins and plants, the rules a
//! plugin or a plant must meet, and how plants are built, changed and run.
pub mod text;
pub mod models;
pub mod error;
pub mod keyed;
pub mod first;
pub mod float_bits;
pub mod ids;
pub mod plugin_store;
pub mod plant_store;
pub mod plugin_service;
pub mod plant_validation;
pub mod controller_params;
pub mod plant_service;
pub mod controller_config;
pub mod plant_edits;
pub mod workspace;
pub mod python_errors;
pub mod json;
pub mod plugin_import;
pub mod plant_import;
pub mod import_service;
pub mod runtime_service;
pub mod runtime_bootstrap;
pub mod runtime_environment;
pub mod runtime_monitor;
pub mod laws;
