//! Policy, redaction, validation and secret handling for a local-first AI
//! operations platform.

pub mod cli;
pub mod config;
pub mod crypto;
pub mod encoding;
pub mod engine;
pub mod error;
pub mod gateway;
pub mod keyed_map;
pub mod provider;
pub mod redaction;
pub mod regex_match;
pub mod rules;
pub mod runtime;
pub mod text;
pub mod trace;
pub mod types;
pub mod validation;
pub mod vault;
