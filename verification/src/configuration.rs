//! The configuration surface: a single optional field naming the
//! debug-bridge executable to invoke. Its absence is a distinct error for
//! every operation that needs the tool.

use vstd::prelude::*;

verus! {

#[derive(Clone, Debug)]
pub struct Configuration {
    pub adb_command: Option<String>,
}

impl Configuration {
    pub fn new() -> (r: Configuration)
        ensures
            r.adb_command is None,
    {
        Configuration { adb_command: None }
    }
}

} // verus!
