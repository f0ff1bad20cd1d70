//! Verified core of the platform-metadata service: string helpers, access
//! roles, version currency, platform entity registry, list queries, extraction
//! prompts, analysis vocabulary enforcement and the decision logic of the
//! background jobs.

pub mod text;
pub mod keyed;
pub mod strings;
pub mod rbac;
pub mod techradar;
pub mod linked;
pub mod query;
pub mod analysis;
pub mod prompts;
pub mod catalog;
pub mod changes;
pub mod ids;
pub mod graph;
pub mod webhooks;
pub mod pr_watcher;
pub mod review;
pub mod analyzer;
pub mod process;
pub mod routes;
pub mod sql;
pub mod web;
pub mod search;
pub mod time;
pub mod remediation;
pub mod auth;
pub mod trends;
pub mod dora;
pub mod scorecards;
