//! Issue index, cache validity and daemon protocol for a file-backed issue tracker.

pub mod cache;
pub mod cli;
pub mod config_loader;
pub mod console_telemetry;
pub mod content_validation;
pub mod daemon_client;
pub mod daemon_paths;
pub mod daemon_protocol;
pub mod daemon_server;
pub mod decimal;
pub mod dependencies;
pub mod dependency_graph;
pub mod dependency_tree;
pub mod error;
pub mod file_io;
pub mod ids;
pub mod index;
pub mod index_build;
pub mod index_laws;
pub mod issue_delete;
pub mod issue_display;
pub mod issue_lookup;
pub mod issue_transfer;
pub mod lines;
pub mod migration;
pub mod models;
pub mod notification_events;
pub mod notification_publisher;
pub mod order;
pub mod policy_context;
pub mod policy_engine;
pub mod policy_evaluator;
pub mod policy_execution;
pub mod policy_guidance;
pub mod policy_loader;
pub mod policy_steps;
pub mod rich_text_signals;
pub mod snyk_issues;
pub mod snyk_mapping;
pub mod snyk_sync;
pub mod text;
pub mod text_map;
