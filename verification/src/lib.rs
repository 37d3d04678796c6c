//! Verified core of a package-documentation service: URL classification,
//! name extraction, report assembly, caching and rate limiting.

pub mod text;
pub mod error;
pub mod logging;
pub mod bindings;
pub mod config;
pub mod order;
pub mod json;
pub mod processors;
pub mod cache;
pub mod rate_limiter;
pub mod api;
pub mod agents;
pub mod output_organizer;
pub mod package_index;
pub mod metrics;
pub mod llama_ui;
pub mod package_processor;
pub mod github_api;
pub mod llama_integration;
pub mod llm_interface;
pub mod mlx;
pub mod orchestrator;
pub mod telemetry;
pub mod commands;
