//! Updates for the KDE Plasma components that are installed on this machine.

pub mod api;
pub mod cli;
pub mod config;
pub mod error;
pub mod installer;
pub mod json;
pub mod metadata;
pub mod pipeline;
pub mod results;
pub mod text;
pub mod tree;
pub mod types;

pub use crate::cli::{CliConfig, ExitCode};
pub use crate::config::{Config, RestartBehavior};
pub use crate::error::Error;
pub use crate::pipeline::{
    check, get_installed, install_update, repair_installed, show_installed, update,
};
pub use crate::results::{CheckResult, RepairResult, UpdateResult};
pub use crate::types::{AvailableUpdate, ComponentType, Diagnostic, InstalledComponent};
