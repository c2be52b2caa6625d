//! Verified core of a log collector for Vector agents: text handling, API key
//! and session-cookie logic, event normalisation, query building and the
//! agent configuration presets.
pub mod auth;
pub mod bindings;
pub mod error;
pub mod hex;
pub mod ingest;
pub mod mcp;
pub mod openapi;
pub mod query;
pub mod routes;
pub mod settings;
pub mod text;
pub mod vector_presets;
