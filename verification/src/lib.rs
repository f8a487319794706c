//! Core logic of a terminal client for an issue tracker with background
//! agent sessions: session-run lifecycle reconciliation, persisted state,
//! thread summaries, response caching and the UI state machine.

pub mod ordered_map;
pub mod outside;
pub mod text;
pub mod amp;
pub mod app;
pub mod api;
pub mod views;
pub mod keys;
pub mod config;
pub mod launch;
pub mod issue_context;
pub mod laws;
pub mod sorting;
pub mod suspend;
