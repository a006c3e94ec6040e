//! RealConsole core library: the verified logic of an intelligent CLI agent.
//!
//! Every module below is checked by Verus; the terminal, file system, network
//! and async plumbing live in the companion application crate.

pub mod text;
pub mod git_assistant;
pub mod liangyyi;
pub mod llm;
pub mod cache;
pub mod i18n;
pub mod likan;
pub mod log_analyzer;
pub mod migration;
pub mod health;
pub mod logger;
pub mod log_files;
pub mod memory;
pub mod history;
pub mod lunar;
pub mod context_tracker;
pub mod llm_clients;
