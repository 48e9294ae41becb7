//! Decision logic of an aggregation gateway for chat-completion providers:
//! the plan model, temperature resolution, the per-level evaluator, the
//! selector and synthesizer stages, and the parsing that surrounds them.

pub mod text;
pub mod json;
pub mod temperature;
pub mod plan;
pub mod selector;
pub mod error;
pub mod analyzer;
pub mod config;
pub mod llm;
pub mod workflow;
pub mod cli;
pub mod klein_bottle;
pub mod stream;
pub mod server;
pub mod config_file;
