//! Verified core of the Gemini CLI extension marketplace: domain models,
//! manifest normalization and validation, catalog filtering and paging,
//! source registry rules, the refresh queue, cache bookkeeping, preference
//! handling, telemetry counters and API error mapping.

pub mod api;
pub mod cache;
pub mod catalog;
pub mod commands;
pub mod config;
pub mod digest;
pub mod domain;
pub mod error;
pub mod fetcher;
pub mod laws;
pub mod locator;
pub mod manifest;
pub mod mcp;
pub mod paths;
pub mod preferences;
pub mod records;
pub mod refresh;
pub mod report;
pub mod show;
pub mod sources;
pub mod status;
pub mod telemetry;
pub mod text;
pub mod time;
pub mod validation;
pub mod version;
