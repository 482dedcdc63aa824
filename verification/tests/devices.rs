use umdb::device::{
    assemble_devices, build_alias_pairs, parse_device_line, parse_interface_addresses,
    resolve_scans, scan_devices_output, Device, DeviceListingError, LineScan, ScanResult,
};
use umdb::net::Ipv4Address;
use umdb::process::RunOutput;

fn ip(a: u8, b: u8, c: u8, d: u8) -> Ipv4Address {
    Ipv4Address { a, b, c, d }
}

fn listing_run(stdout: &str) -> RunOutput {
    RunOutput { stdout: stdout.to_string(), success: true, code: Some(0) }
}

#[test]
fn network_line_parses_with_offline_flag() {
    match parse_device_line("192.168.1.5:5555\toffline") {
        Ok(LineScan::Network(n)) => {
            assert_eq!(n.id, "192.168.1.5:5555".to_string());
            assert_eq!(n.ip, ip(192, 168, 1, 5));
            assert!(n.is_offline);
        }
        other => panic!("expected a network scan, got {:?}", other),
    }
}

#[test]
fn network_line_online_state() {
    match parse_device_line("192.168.1.5:5555\tdevice") {
        Ok(LineScan::Network(n)) => assert!(!n.is_offline),
        other => panic!("expected a network scan, got {:?}", other),
    }
}

#[test]
fn usb_line_awaits_probe() {
    match parse_device_line("ABC123\tdevice") {
        Ok(LineScan::UsbProbeNeeded { id }) => assert_eq!(id, "ABC123".to_string()),
        other => panic!("expected a USB scan, got {:?}", other),
    }
}

#[test]
fn short_line_is_rejected() {
    assert!(matches!(
        parse_device_line("loneword"),
        Err(DeviceListingError::UnrecognizedDebugBridgeOutput)
    ));
}

#[test]
fn interface_probe_extracts_addresses() {
    let probe = "eth0  inet addr:192.168.1.5  Bcast:192.168.1.255\n\
                 wlan0 inet addr:10.0.0.3  Mask:255.255.255.0";
    assert_eq!(
        parse_interface_addresses(probe),
        vec![ip(192, 168, 1, 5), ip(10, 0, 0, 3)]
    );
}

#[test]
fn interface_probe_never_reports_loopback() {
    let probe = "lo    inet addr:127.0.0.1  Mask:255.0.0.0\n\
                 lo    inet6 addr: ::1/128 Scope:Host\n\
                 eth0  inet addr:192.168.1.7  Mask:255.255.255.0";
    assert_eq!(parse_interface_addresses(probe), vec![ip(192, 168, 1, 7)]);
}

#[test]
fn interface_probe_skips_unparseable_captures() {
    let probe = "eth0 inet addr:300.1.1.1\neth1 inet addr:192.168.1.9";
    assert_eq!(parse_interface_addresses(probe), vec![ip(192, 168, 1, 9)]);
}

#[test]
fn failing_listing_run_reports_exit_code() {
    let run = RunOutput { stdout: String::new(), success: false, code: Some(3) };
    assert!(matches!(
        scan_devices_output(&run),
        Err(DeviceListingError::BadExitCode(Some(3)))
    ));
}

#[test]
fn header_is_skipped_and_bad_lines_dropped() {
    let run = listing_run(
        "List of devices attached\nABC123\tdevice\nmalformed-line\n192.168.1.5:5555\tdevice\n",
    );
    let scans = scan_devices_output(&run).unwrap();
    assert_eq!(scans.len(), 2);
    assert!(matches!(&scans[0], LineScan::UsbProbeNeeded { .. }));
    assert!(matches!(&scans[1], LineScan::Network(_)));
}

#[test]
fn header_that_looks_like_a_device_is_still_skipped() {
    let run = listing_run("HEADER\tdevice\nABC123\tdevice\n");
    let scans = scan_devices_output(&run).unwrap();
    assert_eq!(scans.len(), 1);
    match &scans[0] {
        LineScan::UsbProbeNeeded { id } => assert_eq!(id, "ABC123"),
        other => panic!("expected a USB scan, got {:?}", other),
    }
}

#[test]
fn empty_listing_yields_no_devices() {
    let run = listing_run("List of devices attached\n");
    assert_eq!(scan_devices_output(&run).unwrap().len(), 0);
    let run = listing_run("");
    assert_eq!(scan_devices_output(&run).unwrap().len(), 0);
}

#[test]
fn failed_probe_drops_the_usb_line() {
    let scans = vec![
        LineScan::UsbProbeNeeded { id: "ABC123".to_string() },
        LineScan::UsbProbeNeeded { id: "DEF456".to_string() },
    ];
    let probes = vec![None, Some("eth0 inet addr:10.0.0.4".to_string())];
    let results = resolve_scans(&scans, &probes);
    assert_eq!(results.len(), 1);
    match &results[0] {
        ScanResult::UsbResult(u) => {
            assert_eq!(u.id, "DEF456".to_string());
            assert_eq!(u.addresses, vec![ip(10, 0, 0, 4)]);
        }
        other => panic!("expected a USB result, got {:?}", other),
    }
}

fn correlated_results() -> Vec<ScanResult> {
    let scans = vec![
        LineScan::UsbProbeNeeded { id: "ABC123".to_string() },
        parse_device_line("192.168.1.5:5555\tdevice").unwrap(),
    ];
    let probes = vec![Some("eth0 inet addr:192.168.1.5".to_string()), None];
    resolve_scans(&scans, &probes)
}

#[test]
fn alias_table_maps_both_directions() {
    let results = correlated_results();
    let pairs = build_alias_pairs(&results);
    assert!(pairs.contains(&("ABC123".to_string(), "192.168.1.5:5555".to_string())));
    assert!(pairs.contains(&("192.168.1.5:5555".to_string(), "ABC123".to_string())));
}

#[test]
fn assembled_devices_carry_aliases_and_models() {
    let results = correlated_results();
    let models = vec![Some("Google Pixel 6".to_string()), None];
    let devices = assemble_devices(&results, &models);
    assert_eq!(devices.len(), 2);

    let usb = &devices[0];
    assert_eq!(usb.id, "ABC123".to_string());
    assert!(!usb.is_remote);
    assert!(!usb.is_offline);
    assert_eq!(usb.model, Some("Google Pixel 6".to_string()));
    assert_eq!(usb.alias, Some("192.168.1.5:5555".to_string()));
    assert_eq!(usb.known_ips, vec![ip(192, 168, 1, 5)]);

    let remote = &devices[1];
    assert_eq!(remote.id, "192.168.1.5:5555".to_string());
    assert!(remote.is_remote);
    assert!(!remote.is_offline);
    assert_eq!(remote.model, None);
    assert_eq!(remote.alias, Some("ABC123".to_string()));
    assert_eq!(remote.known_ips, vec![ip(192, 168, 1, 5)]);
}

#[test]
fn unmatched_usb_device_has_no_alias() {
    let scans = vec![LineScan::UsbProbeNeeded { id: "ABC123".to_string() }];
    let probes = vec![Some("eth0 inet addr:10.0.0.9".to_string())];
    let results = resolve_scans(&scans, &probes);
    let devices = assemble_devices(&results, &vec![None]);
    assert_eq!(devices[0].alias, None);
}

fn enumerate_once(stdout: &str, probes: Vec<Option<String>>, models: Vec<Option<String>>) -> Vec<Device> {
    let scans = scan_devices_output(&listing_run(stdout)).unwrap();
    let results = resolve_scans(&scans, &probes);
    assemble_devices(&results, &models)
}

#[test]
fn enumeration_is_idempotent_on_unchanged_outputs() {
    let stdout = "List of devices attached\nABC123\tdevice\n192.168.1.5:5555\tdevice\n";
    let probes = vec![Some("eth0 inet addr:192.168.1.5".to_string()), None];
    let models = vec![Some("Google Pixel 6".to_string()), Some("OnePlus 9".to_string())];
    let first = enumerate_once(stdout, probes.clone(), models.clone());
    let second = enumerate_once(stdout, probes, models);
    assert_eq!(first, second);
}

#[test]
fn enumeration_bounded_by_data_lines() {
    let stdout = "List of devices attached\nbad\nalso bad\n192.168.1.5:5555\tdevice\n";
    let scans = scan_devices_output(&listing_run(stdout)).unwrap();
    assert!(scans.len() <= 3);
    assert_eq!(scans.len(), 1);
}

#[test]
fn scan_result_id_reads_either_variant() {
    let results = correlated_results();
    assert_eq!(results[0].id(), "ABC123");
    assert_eq!(results[1].id(), "192.168.1.5:5555");
}
