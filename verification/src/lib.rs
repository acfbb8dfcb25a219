//! Verified core of hush, a push-to-talk dictation tool: transcript
//! cleanup, shortcut tokens and matching, the dictation pipeline state
//! machine, and the small decision rules around them.

pub mod text;
pub mod numbers;
pub mod cleanup;
pub mod config;
pub mod pipeline;
pub mod shortcut;
pub mod custom_parser;
pub mod ollama;
pub mod models;
pub mod perms;
pub mod paths;
pub mod prefs;
pub mod autostart;
pub mod overlay;
pub mod ui;
pub mod output;
