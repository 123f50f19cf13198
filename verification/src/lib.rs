//! Flarion: an LLM inference gateway. This crate holds the gateway's
//! decision logic — configuration validation, VRAM budgeting, error
//! mapping, request shaping and text formatting — with its contracts.

pub mod scheduling;
pub mod text;
pub mod vram_detect;
pub mod config;
pub mod upstream;
pub mod validate;
pub mod env_interp;
pub mod error;
pub mod api_types;
pub mod cloud;
pub mod anthropic;
pub mod openai;
pub mod testing;
pub mod endpoint;
pub mod admin;
pub mod tracker;
pub mod prompt;
pub mod chat;
pub mod auth;
pub mod cli;
pub mod metrics;
pub mod redact;
pub mod hf;
pub mod keyed;
pub mod registry;
pub mod repl;
pub mod lifecycle;
