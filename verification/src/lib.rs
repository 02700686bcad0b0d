//! An inference-job gateway library: a model registry with version
//! resolution, an integer-cent cost estimator, a job store enforcing the
//! job lifecycle state machine, a bounded priority queue feeding a
//! single dispatcher, and the surrounding service vocabulary.

pub mod ai;
pub mod auto_api;
pub mod backlog;
pub mod clock;
pub mod commands;
pub mod cost;
pub mod ecommerce;
pub mod error;
pub mod gateway;
pub mod integrations;
pub mod jean_memory;
pub mod jean_model_hub;
pub mod jean_multilingual;
pub mod jean_permissions;
pub mod job;
pub mod local_fs;
pub mod local_hub;
pub mod loyalty;
pub mod models;
pub mod monetization;
pub mod plugins;
pub mod proxy;
pub mod queue;
pub mod registry;
pub mod routes;
pub mod security;
pub mod store;
pub mod text;
pub mod transport;
pub mod video_studio;
