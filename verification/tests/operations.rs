use umdb::configuration::Configuration;
use umdb::connect::{
    connect_command, evaluate_connect_outcome, evaluate_switch_outcome, AdbConnectError,
};
use umdb::device::devices_command;
use umdb::executable::{
    interpret_version_output, perform_common_executable_checks, CheckExecutableError, FileProbe,
};
use umdb::headers::{parse_system, ReadSystemHeaderError};
use umdb::links::{
    deep_link_command, interpret_deep_link_output, OpenDeepLinkError, OpenDeepLinkResult,
};
use umdb::process::{RunEvent, RunOutput};
use umdb::umdb::{System, Umdb};

fn completed(stdout: &str, success: bool, code: Option<i32>) -> RunEvent {
    RunEvent::Completed(RunOutput { stdout: stdout.to_string(), success, code })
}

fn ok_run(stdout: &str) -> RunOutput {
    RunOutput { stdout: stdout.to_string(), success: true, code: Some(0) }
}

#[test]
fn fresh_state_has_no_command() {
    let umdb = Umdb::new();
    assert!(umdb.configuration.adb_command.is_none());
    assert!(umdb.enable_logs);
    assert!(Configuration::new().adb_command.is_none());
}

#[test]
fn operations_require_a_configured_command() {
    let config = Configuration::new();
    assert!(matches!(
        devices_command(&config),
        Err(umdb::device::DeviceListingError::DebugBridgePathMissing)
    ));
    assert!(matches!(
        connect_command(&config),
        Err(AdbConnectError::DebugBridgePathMissing)
    ));
    assert!(matches!(
        deep_link_command(&config),
        Err(OpenDeepLinkError::DebugBridgePathMissing)
    ));
}

#[test]
fn configured_command_is_handed_back() {
    let config = Configuration { adb_command: Some("adb".to_string()) };
    assert_eq!(devices_command(&config).unwrap(), "adb");
    assert_eq!(connect_command(&config).unwrap(), "adb");
    assert_eq!(deep_link_command(&config).unwrap(), "adb");
}

#[test]
fn failed_mode_switch_stops_the_connect_operation() {
    let outcome = evaluate_switch_outcome(completed("", false, Some(1)));
    assert!(matches!(outcome, Err(AdbConnectError::CannotSwitchAdbMode)));
}

#[test]
fn switch_timeout_and_spawn_failures_are_distinct() {
    assert!(matches!(
        evaluate_switch_outcome(RunEvent::TimedOut),
        Err(AdbConnectError::DeviceUnresponsive)
    ));
    match evaluate_switch_outcome(RunEvent::SpawnFailed("no such file".to_string())) {
        Err(AdbConnectError::CannotRunProcess(m)) => assert_eq!(m, "no such file"),
        other => panic!("expected a spawn failure, got {:?}", other),
    }
}

#[test]
fn successful_switch_hands_its_output_on() {
    let out = evaluate_switch_outcome(completed("restarting in TCP mode", true, Some(0))).unwrap();
    assert!(out.success);
    assert_eq!(out.stdout, "restarting in TCP mode");
}

#[test]
fn connect_step_follows_the_switch_status() {
    let switch_output = ok_run("");
    assert!(evaluate_connect_outcome(&switch_output, completed("connected", true, Some(0))).is_ok());
    assert!(matches!(
        evaluate_connect_outcome(&switch_output, RunEvent::TimedOut),
        Err(AdbConnectError::DeviceUnresponsive)
    ));
    let failed_switch = RunOutput { stdout: String::new(), success: false, code: Some(1) };
    assert!(matches!(
        evaluate_connect_outcome(&failed_switch, completed("", true, Some(0))),
        Err(AdbConnectError::CannotConnectToDevice)
    ));
}

#[test]
fn deep_link_started() {
    let run = ok_run("Starting: Intent { dat=https://... }\nStatus: ok\nComplete");
    assert_eq!(
        interpret_deep_link_output(&run).unwrap(),
        OpenDeepLinkResult::Started
    );
}

#[test]
fn deep_link_delivered_to_running_instance() {
    let run = ok_run(
        "Starting: Intent { dat=https://... }\n\
         Warning: Activity not started, intent has been delivered to currently running top-most instance.\n\
         Complete",
    );
    assert_eq!(
        interpret_deep_link_output(&run).unwrap(),
        OpenDeepLinkResult::LaunchedInExistingInstance
    );
}

#[test]
fn deep_link_failure_carries_the_error_line() {
    let run = ok_run("Starting: Intent { }\nError: Activity class does not exist.\nAborted");
    match interpret_deep_link_output(&run) {
        Err(OpenDeepLinkError::CommandFailed(m)) => {
            assert_eq!(m, "Error: Activity class does not exist.")
        }
        other => panic!("expected a command failure, got {:?}", other),
    }
}

#[test]
fn deep_link_failure_without_error_line_is_empty() {
    let run = ok_run("Starting: Intent { }\nAborted");
    match interpret_deep_link_output(&run) {
        Err(OpenDeepLinkError::CommandFailed(m)) => assert_eq!(m, ""),
        other => panic!("expected a command failure, got {:?}", other),
    }
}

#[test]
fn deep_link_bad_exit_code() {
    let run = RunOutput { stdout: "Complete".to_string(), success: false, code: Some(255) };
    assert!(matches!(
        interpret_deep_link_output(&run),
        Err(OpenDeepLinkError::BadExitCode(Some(255)))
    ));
}

#[test]
fn version_banner_is_required() {
    assert!(interpret_version_output(&ok_run("Android Debug Bridge version 1.0.41")).is_ok());
    assert!(matches!(
        interpret_version_output(&ok_run("some other tool")),
        Err(CheckExecutableError::CannotCheckVersion)
    ));
    let failed = RunOutput { stdout: String::new(), success: false, code: Some(1) };
    assert!(matches!(
        interpret_version_output(&failed),
        Err(CheckExecutableError::BadExitCode(Some(1)))
    ));
}

#[test]
fn executable_checks_follow_the_probe() {
    let hit = perform_common_executable_checks(
        "adb",
        Some("/usr/bin/adb".to_string()),
        FileProbe::Stat { is_file: false, executable: false },
    );
    assert_eq!(hit.unwrap(), "/usr/bin/adb");

    assert!(matches!(
        perform_common_executable_checks("x", None, FileProbe::StatFailed("denied".to_string())),
        Err(CheckExecutableError::CheckFileError(_))
    ));
    assert!(matches!(
        perform_common_executable_checks(
            "x",
            None,
            FileProbe::Stat { is_file: false, executable: true }
        ),
        Err(CheckExecutableError::NotAFile)
    ));
    assert!(matches!(
        perform_common_executable_checks(
            "x",
            None,
            FileProbe::Stat { is_file: true, executable: false }
        ),
        Err(CheckExecutableError::NotAnExecutable)
    ));
    assert_eq!(
        perform_common_executable_checks(
            "/opt/adb",
            None,
            FileProbe::Stat { is_file: true, executable: true }
        )
        .unwrap(),
        "/opt/adb"
    );
}

#[test]
fn system_header_values() {
    assert_eq!(parse_system("android"), Ok(System::Android));
    assert_eq!(parse_system("Android"), Ok(System::Android));
    assert_eq!(parse_system("IOS"), Ok(System::Ios));
    assert_eq!(parse_system("ios"), Ok(System::Ios));
    assert_eq!(parse_system("linux"), Err(ReadSystemHeaderError::InvalidValue));
    assert_eq!(parse_system(""), Err(ReadSystemHeaderError::InvalidValue));
}
