//! Verified core of `rusted`, a small developer command-line helper: shell
//! command construction, configuration lookups, and random-name generation.

pub mod text;
pub mod value;
pub mod config;
pub mod bash;
pub mod venv;
pub mod ssh;
pub mod ai;
pub mod python;
pub mod rand;
pub mod cli;
