//! Definitions, checks and front-end state for a registry of LLM providers,
//! models, specialists and tool scripts.

pub mod text;
pub mod sort;
pub mod names;
pub mod ai;
pub mod domain;
pub mod display;
pub mod clock;
pub mod commands;
pub mod tui;
pub mod screen;
pub mod editor;
pub mod snapshot;
pub mod counter;
pub mod script;
pub mod json;
pub mod anthropic;
pub mod openai;
pub mod sse;
pub mod log;
pub mod message;
pub mod validation;
pub mod run;
pub mod converse;
