//! Verified core of the Steersman desktop backend: wire-protocol parsing,
//! configuration editing, integration rules and the decisions that the
//! desktop shell makes around them.

pub mod text;
pub mod json;
pub mod json_text;
pub mod yaml;
pub mod number;
pub mod chat;
pub mod conversation;
pub mod wire;
pub mod config;
pub mod config_health;
pub mod integration_domain;
pub mod float_syntax;
pub mod integration_service;
pub mod gateway;
pub mod mcp_adapter;
pub mod mcp_client;
pub mod hermes_protocol;
pub mod feed_sources;
pub mod mcp;
pub mod capability_router;
pub mod install;
pub mod digest;
pub mod auth;
pub mod ids;
pub mod cronjobs;
pub mod kanban;
pub mod briefing;
pub mod mcp_server;
pub mod gateway_table;
pub mod discovery;
pub mod desktop;
pub mod secret_files;
