//! The settings of a check, an update or a repair.

use std::collections::HashMap;
use vstd::prelude::*;

verus! {

/// Whether the desktop shell is restarted after an update that needs it.
#[derive(Debug, Clone, Copy, PartialEq, Eq, Structural)]
pub enum RestartBehavior {
    Never,
    Always,
    Prompt,
}

#[derive(Debug, Clone)]
pub struct Config {
    /// Whether the components of the whole system are meant, not those of the user.
    pub system: bool,
    pub skip_plasma_detection: bool,
    /// How many downloads may run at once, where that is set.
    pub threads: Option<usize>,
    /// Whether updates are applied without asking.
    pub auto_confirm: bool,
    pub restart: RestartBehavior,
    /// The directory names of components that are never updated.
    pub excluded_packages: Vec<String>,
    /// The store entries of components by their name, in place of the built-in table.
    pub widgets_id_table: Option<HashMap<String, u64>>,
}

impl Config {
    pub fn new() -> (config: Config)
        ensures
            !config.system,
            !config.skip_plasma_detection,
            config.threads is None,
            !config.auto_confirm,
            config.restart == RestartBehavior::Never,
            config.excluded_packages@ == Seq::<String>::empty(),
            config.widgets_id_table is None,
    {
        Config {
            system: false,
            skip_plasma_detection: false,
            threads: None,
            auto_confirm: false,
            restart: RestartBehavior::Never,
            excluded_packages: Vec::new(),
            widgets_id_table: None,
        }
    }

    pub fn with_excluded_packages(self, packages: Vec<String>) -> (config: Config)
        ensures
            config == (Config { excluded_packages: packages, ..self }),
    {
        Config { excluded_packages: packages, ..self }
    }

    pub fn with_restart(self, restart: RestartBehavior) -> (config: Config)
        ensures
            config == (Config { restart, ..self }),
    {
        Config { restart, ..self }
    }

    pub fn with_threads(self, threads: usize) -> (config: Config)
        ensures
            config == (Config { threads: Some(threads), ..self }),
    {
        Config { threads: Some(threads), ..self }
    }

    pub fn with_widgets_id_table(self, table: HashMap<String, u64>) -> (config: Config)
        ensures
            config == (Config { widgets_id_table: Some(table), ..self }),
    {
        Config { widgets_id_table: Some(table), ..self }
    }
}

} // verus!
