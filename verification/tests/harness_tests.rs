use kernel_console::harness::{build_failed_message, build_running_message, test_runner, QemuExitCode};

#[test]
fn exit_codes_match_protocol() {
    assert_eq!(QemuExitCode::Success.code(), 0x10);
    assert_eq!(QemuExitCode::Failed.code(), 0x11);
}

#[test]
fn all_passing_probes_exit_success() {
    // A run with zero failing probes issues one exit signal, value 0x10.
    let outcomes = vec![true, true, true];
    let report = test_runner(&outcomes);
    assert_eq!(report.executed, 3);
    assert_eq!(report.exit_code, QemuExitCode::Success);
    assert_eq!(report.exit_code.code(), 0x10);
}

#[test]
fn second_probe_fault_stops_the_run() {
    // Probes 1 and 2 run, probe 3 never does, and the exit signal carries
    // the failure code 0x11.
    let outcomes = vec![true, false, true];
    let report = test_runner(&outcomes);
    assert_eq!(report.executed, 2);
    assert!(report.executed < 3);
    assert_eq!(report.exit_code, QemuExitCode::Failed);
    assert_eq!(report.exit_code.code(), 0x11);
}

#[test]
fn empty_probe_list_exits_success() {
    let outcomes: Vec<bool> = Vec::new();
    let report = test_runner(&outcomes);
    assert_eq!(report.executed, 0);
    assert_eq!(report.exit_code, QemuExitCode::Success);
}

#[test]
fn running_message_spells_the_count() {
    assert_eq!(build_running_message(3), b"Running 3 tests\n".to_vec());
    assert_eq!(build_running_message(0), b"Running 0 tests\n".to_vec());
    assert_eq!(build_running_message(123), b"Running 123 tests\n".to_vec());
    assert_eq!(
        build_running_message(18446744073709551615),
        b"Running 18446744073709551615 tests\n".to_vec()
    );
}

#[test]
fn failed_message_spells_the_marker() {
    assert_eq!(build_failed_message(), b"FAILED\n".to_vec());
}
