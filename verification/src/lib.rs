pub mod config;
pub mod dag;
pub mod dag_store;
pub mod database;
pub mod error;
pub mod executor;
pub mod json;
pub mod k8s;
pub mod mocks;
pub mod orchestrator;
pub mod sql;
pub mod strmap;
pub mod system;
pub mod text;
pub mod types;
pub mod views;
