//! Plain records of what an external process run produced. The library never
//! spawns anything itself: the caller runs the configured debug-bridge tool,
//! captures its stdout and exit status, and hands them over in these types.

use vstd::prelude::*;

verus! {

/// A finished process run: captured stdout (decoded to text), whether the
/// exit status reported success, and the numeric exit code when one exists.
#[derive(Clone, Debug)]
pub struct RunOutput {
    pub stdout: String,
    pub success: bool,
    pub code: Option<i32>,
}

/// What became of an attempted process run: it completed, the operating
/// system could not spawn it, or a caller-imposed deadline elapsed first.
#[derive(Clone, Debug)]
pub enum RunEvent {
    Completed(RunOutput),
    SpawnFailed(String),
    TimedOut,
}

} // verus!
