//! The executable check, split into its two decisions: whether a configured
//! path resolves to something runnable, and whether what ran identifies
//! itself as the debug bridge. Searching the system path, reading file
//! metadata and running the tool stay with the caller, which reports its
//! findings in plain values.

use vstd::prelude::*;

use crate::process::RunOutput;
use crate::text::{spec_starts_with, str_starts_with};

verus! {

#[derive(Clone, Debug)]
pub enum CheckExecutableError {
    ProcessExecutionError(String),
    BadExitCode(Option<i32>),
    CheckFileError(String),
    CannotCheckVersion,
    NotAnExecutable,
    NotAFile,
}

/// What the caller found out about a path on the file system: reading its
/// metadata failed with the given message, or the metadata was read and says
/// whether the path is a regular file and whether it may be executed.
#[derive(Clone, Debug)]
pub enum FileProbe {
    StatFailed(String),
    Stat { is_file: bool, executable: bool },
}

/// Decides whether a configured executable is acceptable.
///
/// A hit found by searching the system path wins outright and is returned
/// resolved. Otherwise the file-system probe decides: unreadable metadata,
/// not a regular file and a missing execute permission each map to their own
/// error, and an executable regular file returns the path unchanged.
pub fn perform_common_executable_checks(
    path: &str,
    search_hit: Option<String>,
    probe: FileProbe,
) -> (r: Result<String, CheckExecutableError>)
    ensures
        search_hit matches Some(p) ==> (r matches Ok(q) && q@ == p@),
        search_hit is None ==> match probe {
            FileProbe::StatFailed(e) => (r matches Err(
                CheckExecutableError::CheckFileError(m),
            ) && m@ == e@),
            FileProbe::Stat { is_file, executable } => {
                &&& (!is_file ==> (r matches Err(e) && e is NotAFile))
                &&& (is_file && !executable ==> (r matches Err(e) && e is NotAnExecutable))
                &&& (is_file && executable ==> (r matches Ok(q) && q@ == path@))
            },
        },
{
    match search_hit {
        Some(p) => Ok(p),
        None => match probe {
            FileProbe::StatFailed(e) => Err(CheckExecutableError::CheckFileError(e)),
            FileProbe::Stat { is_file, executable } => {
                if !is_file {
                    Err(CheckExecutableError::NotAFile)
                } else if !executable {
                    Err(CheckExecutableError::NotAnExecutable)
                } else {
                    Ok(String::from_str(path))
                }
            },
        },
    }
}

/// Decides whether a `--version` run proves the tool is the debug bridge:
/// the run must have succeeded and its output must open with the tool's
/// well-known banner.
pub fn interpret_version_output(run: &RunOutput) -> (r: Result<(), CheckExecutableError>)
    ensures
        !run.success ==> (r matches Err(e) && e == CheckExecutableError::BadExitCode(run.code)),
        run.success && spec_starts_with(run.stdout@, "Android Debug Bridge"@) ==> (r matches Ok(u)
            && u == ()),
        run.success && !spec_starts_with(run.stdout@, "Android Debug Bridge"@) ==> (r matches Err(
            e,
        ) && e is CannotCheckVersion),
{
    if !run.success {
        return Err(CheckExecutableError::BadExitCode(run.code));
    }
    if !str_starts_with(run.stdout.as_str(), "Android Debug Bridge") {
        return Err(CheckExecutableError::CannotCheckVersion);
    }
    Ok(())
}

} // verus!
