//! The TCP/IP connect operation as a two-step state machine. The caller runs
//! the mode-switch command, hands its outcome over, and only when told that
//! the switch succeeded runs the connect command and hands that outcome over
//! too; each decision between the steps is made and proved here.

use vstd::prelude::*;

use crate::configuration::Configuration;
use crate::process::{RunEvent, RunOutput};

verus! {

#[derive(Clone, Debug)]
pub enum AdbConnectError {
    CannotRunProcess(String),
    DebugBridgePathMissing,
    CannotConnectToDevice,
    CannotSwitchAdbMode,
    DeviceUnresponsive,
}

pub fn connect_command(configuration: &Configuration) -> (r: Result<&String, AdbConnectError>)
    ensures
        match configuration.adb_command {
            Some(cmd) => (r matches Ok(c) && c@ == cmd@),
            None => (r matches Err(e) && e is DebugBridgePathMissing),
        },
{
    match &configuration.adb_command {
        Some(c) => Ok(c),
        None => Err(AdbConnectError::DebugBridgePathMissing),
    }
}

/// Decides what the mode-switch step's outcome means. A timeout and a spawn
/// failure are surfaced as such; a completed run with a failing exit status
/// means the device cannot be switched into TCP/IP mode, and the subsequent
/// connect step must not be attempted; only a successful run hands its
/// output on to the second step.
pub fn evaluate_switch_outcome(event: RunEvent) -> (r: Result<RunOutput, AdbConnectError>)
    ensures
        match event {
            RunEvent::TimedOut => (r matches Err(e) && e is DeviceUnresponsive),
            RunEvent::SpawnFailed(m) => (r matches Err(
                AdbConnectError::CannotRunProcess(mm),
            ) && mm@ == m@),
            RunEvent::Completed(o) => {
                &&& (!o.success ==> (r matches Err(e) && e is CannotSwitchAdbMode))
                &&& (o.success ==> (r matches Ok(out) && out == o))
            },
        },
{
    match event {
        RunEvent::TimedOut => Err(AdbConnectError::DeviceUnresponsive),
        RunEvent::SpawnFailed(m) => Err(AdbConnectError::CannotRunProcess(m)),
        RunEvent::Completed(o) => {
            if !o.success {
                Err(AdbConnectError::CannotSwitchAdbMode)
            } else {
                Ok(o)
            }
        },
    }
}

/// Decides the final result once the connect step's outcome is in. A timeout
/// and a spawn failure are surfaced as such. For a completed run, the final
/// success determination re-tests the mode-switch step's exit status, not
/// the connect command's own — a long-standing quirk of this operation that
/// callers may rely on, kept here rather than silently corrected. Since the
/// second step only runs after a successful switch, the re-test passes there.
pub fn evaluate_connect_outcome(switch_output: &RunOutput, event: RunEvent) -> (r: Result<
    (),
    AdbConnectError,
>)
    ensures
        event is TimedOut ==> (r matches Err(e) && e is DeviceUnresponsive),
        event matches RunEvent::SpawnFailed(m) ==> (r matches Err(
            AdbConnectError::CannotRunProcess(mm),
        ) && mm@ == m@),
        event is Completed && !switch_output.success ==> (r matches Err(e)
            && e is CannotConnectToDevice),
        event is Completed && switch_output.success ==> (r matches Ok(u) && u == ()),
{
    match event {
        RunEvent::TimedOut => Err(AdbConnectError::DeviceUnresponsive),
        RunEvent::SpawnFailed(m) => Err(AdbConnectError::CannotRunProcess(m)),
        RunEvent::Completed(_) => {
            if !switch_output.success {
                Err(AdbConnectError::CannotConnectToDevice)
            } else {
                Ok(())
            }
        },
    }
}

} // verus!
