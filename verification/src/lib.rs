//! Verified core of careerbot, a local job-monitoring daemon: the
//! configuration model, filesystem layout, collector selection, agent
//! loop bookkeeping, IPC parsing and notification shaping.
pub mod text;
pub mod paths;
pub mod config;
pub mod collector;
pub mod external;
pub mod tools;
pub mod types;
pub mod agent;
pub mod anthropic;
pub mod subprocess;
pub mod json;
pub mod tool_dispatch;
pub mod mcp;
pub mod notifications;
pub mod scheduler;
pub mod ipc_client;
pub mod daemon;
pub mod runtime;
pub mod prompts;
pub mod commands;
pub mod cli;
pub mod messaging;
pub mod stream;
pub mod database;
pub mod ingest;
