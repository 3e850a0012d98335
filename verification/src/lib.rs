//! Dune Terminal Codex: the verified core of a terminal encyclopedia of the
//! Dune universe (text cleanup, snippet rendering, word wrap, export and the
//! TUI state machine).

pub mod text;
pub mod util;
pub mod clean;
pub mod profile;
pub mod pdf;
pub mod metadata;
pub mod export;
pub mod repository;
pub mod tui;
pub mod config;
pub mod wiki;
pub mod oracle;
pub mod views;
pub mod indexer;
pub mod resolver;
pub mod events;
