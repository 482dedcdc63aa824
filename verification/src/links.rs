//! Interpretation of the deep-link launch command's output. Running the
//! activity-start command is the caller's job; every decision about what its
//! captured output means is made and proved here.

use vstd::prelude::*;

use crate::configuration::Configuration;
use crate::process::RunOutput;
use crate::text::{
    lemma_split_nonempty, seq_views, spec_contains_seq, spec_split, spec_starts_with,
    spec_trim_end, split_char, str_contains, str_equal, str_starts_with, trim_end_str,
};

verus! {

#[derive(PartialEq, Eq, Structural, Clone, Copy, Debug)]
pub enum OpenDeepLinkResult {
    Started,
    LaunchedInExistingInstance,
}

#[derive(Clone, Debug)]
pub enum OpenDeepLinkError {
    CannotRunProcess(String),
    BadExitCode(Option<i32>),
    DebugBridgePathMissing,
    CommandFailed(String),
}

/// The note the activity manager prints when a link was delivered to an
/// already-running top-most instance instead of starting a new one.
pub open spec fn already_running_note() -> Seq<char> {
    "Activity not started, intent has been delivered to currently running top-most instance."@
}

/// The first output line that reports an error, or empty when none does.
pub open spec fn spec_error_line(lines: Seq<Seq<char>>) -> Seq<char>
    decreases lines.len(),
{
    if lines.len() == 0 {
        Seq::empty()
    } else if spec_starts_with(lines.first(), "Error: "@) {
        lines.first()
    } else {
        spec_error_line(lines.drop_first())
    }
}

pub fn deep_link_command(configuration: &Configuration) -> (r: Result<&String, OpenDeepLinkError>)
    ensures
        match configuration.adb_command {
            Some(cmd) => (r matches Ok(c) && c@ == cmd@),
            None => (r matches Err(e) && e is DebugBridgePathMissing),
        },
{
    match &configuration.adb_command {
        Some(c) => Ok(c),
        None => Err(OpenDeepLinkError::DebugBridgePathMissing),
    }
}

fn find_error_line(lines: &Vec<String>) -> (r: String)
    ensures
        r@ == spec_error_line(seq_views(lines@)),
{
    let n = lines.len();
    let ghost all = seq_views(lines@);
    let mut i: usize = 0;
    proof {
        assert(all.skip(0) =~~= all);
    }
    while i < n
        invariant
            i <= n,
            n == lines@.len(),
            all == seq_views(lines@),
            spec_error_line(all) == spec_error_line(all.skip(i as int)),
        decreases n - i,
    {
        proof {
            assert(all.skip(i as int).first() == all[i as int]);
            assert(all[i as int] == lines@[i as int]@);
            assert(all.skip(i as int).drop_first() =~~= all.skip(i + 1));
        }
        if str_starts_with(lines[i].as_str(), "Error: ") {
            return lines[i].clone();
        }
        i = i + 1;
    }
    proof {
        assert(all.skip(n as int) =~~= Seq::<Seq<char>>::empty());
    }
    String::new()
}

/// Decides what a finished launch command reported.
///
/// A failing exit status is surfaced as such. Otherwise the final output
/// line decides: `Complete` means the link was delivered, either to a fresh
/// activity or (when the output carries the already-running note) to an
/// existing instance; any other final line means the command failed, and the
/// first line reporting an error, if any, is carried along as the message.
pub fn interpret_deep_link_output(run: &RunOutput) -> (r: Result<
    OpenDeepLinkResult,
    OpenDeepLinkError,
>)
    ensures
        !run.success ==> (r matches Err(e) && e == OpenDeepLinkError::BadExitCode(run.code)),
        run.success ==> {
            let lines = spec_split(spec_trim_end(run.stdout@), '\n');
            let already = spec_contains_seq(run.stdout@, already_running_note());
            &&& (lines.last() == "Complete"@ && !already ==> r == Ok::<
                OpenDeepLinkResult,
                OpenDeepLinkError,
            >(OpenDeepLinkResult::Started))
            &&& (lines.last() == "Complete"@ && already ==> r == Ok::<
                OpenDeepLinkResult,
                OpenDeepLinkError,
            >(OpenDeepLinkResult::LaunchedInExistingInstance))
            &&& (lines.last() != "Complete"@ ==> (r matches Err(
                OpenDeepLinkError::CommandFailed(m),
            ) && m@ == spec_error_line(lines)))
        },
{
    if !run.success {
        return Err(OpenDeepLinkError::BadExitCode(run.code));
    }
    let new_instance_started = !str_contains(
        run.stdout.as_str(),
        "Activity not started, intent has been delivered to currently running top-most instance.",
    );
    let trimmed = trim_end_str(run.stdout.as_str());
    let lines = split_char(trimmed.as_str(), '\n');
    proof {
        lemma_split_nonempty(spec_trim_end(run.stdout@), '\n');
    }
    let last = &lines[lines.len() - 1];
    proof {
        assert(seq_views(lines@).last() == lines@[lines@.len() - 1]@);
    }
    let launched = str_equal(last.as_str(), "Complete");
    if launched {
        if new_instance_started {
            Ok(OpenDeepLinkResult::Started)
        } else {
            Ok(OpenDeepLinkResult::LaunchedInExistingInstance)
        }
    } else {
        Err(OpenDeepLinkError::CommandFailed(find_error_line(&lines)))
    }
}

} // verus!
