//! The central state container: the configuration and a logging switch,
//! together with the target-platform selector that requests carry.

use vstd::prelude::*;

use crate::configuration::Configuration;

verus! {

#[derive(PartialEq, Eq, Structural, Clone, Copy, Debug)]
pub enum System {
    Android,
    Ios,
}

pub struct Umdb {
    pub configuration: Configuration,
    pub enable_logs: bool,
}

impl Umdb {
    pub fn new() -> (r: Umdb)
        ensures
            r.configuration.adb_command is None,
            r.enable_logs,
    {
        Umdb { configuration: Configuration::new(), enable_logs: true }
    }
}

} // verus!
