//! EliteLM: configuration model, OpenAI-compatible wire types, and the
//! deterministic parts of the inference backends, with their contracts.

pub mod text;
pub mod order;
pub mod paths;
pub mod config;
pub mod chat;
pub mod openai;
pub mod genie;
pub mod llamacpp;
pub mod backend;
pub mod server;
pub mod cli;
pub mod json;
