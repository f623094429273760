//! Waves: a rule-driven survival world that external agents play through a
//! small decision protocol. This crate holds the verified core of it: world
//! vocabulary, the decision gate, localisation lookup, configuration
//! validation, and terminal text layout.

pub mod app;
pub mod config;
pub mod daemon;
pub mod i18n;
pub mod mcp;
pub mod persistence;
pub mod scenario;
pub mod text;
pub mod tui;
pub mod world;
