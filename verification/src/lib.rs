//! Verified core of the Perth transport live-tracking service.
pub mod text;
pub mod string_map;
pub mod outside;
pub mod types;
pub mod task_manager;
pub mod constants;
pub mod channels;
pub mod tasks;
pub mod auth;
pub mod query;
pub mod config;
pub mod websocket;
pub mod pta;
pub mod laws;
