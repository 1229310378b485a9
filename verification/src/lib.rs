//! The verified core of an agent harness.
pub mod api_auth;
pub mod api_cron;
pub mod api_error;
pub mod api_input;
pub mod api_jobs;
pub mod api_responses;
pub mod api_threads;
pub mod api_ui;
pub mod approval;
pub mod bus;
pub mod chat_table;
pub mod checkpoint;
pub mod compaction;
pub mod compaction_run;
pub mod config;
pub mod config_providers;
pub mod config_resolve;
pub mod config_summary;
pub mod context;
pub mod doom_loop;
pub mod failover;
pub mod history_cells;
pub mod ip;
pub mod json;
pub mod message;
pub mod named;
pub mod order;
pub mod outside;
pub mod pending;
pub mod plan;
pub mod prompt;
pub mod provider_registry;
pub mod research;
pub mod response_cache;
pub mod routing;
pub mod skills;
pub mod subagent;
pub mod subagent_tools;
pub mod summary;
pub mod task_index;
pub mod text;
pub mod tool_call;
pub mod turn;
pub mod workspace;
