use nexoravm::handles::ProbeHost;
use nexoravm::qemu_command::QemuBootMode;
use nexoravm::runtime_adapter::{
    choose_qemu_executable, version_from_output, version_probe_step, ProbeStep, VERSION_POLL_INTERVAL_MILLIS,
    current_timestamp, detect_qemu_version, format_timestamp, discover_qemu_capabilities, parse_qemu_version,
    platform_diagnostics, CapabilityState, QemuHost, QemuRuntimeAdapter, RuntimeAdapter,
    RuntimeType,
};
use nexoravm::search::SearchDirs;
use nexoravm::settings::{AppSettings, DisplayMode};

/// Search directories in which QEMU is not installed.
fn no_dirs() -> SearchDirs {
    SearchDirs {
        program_files_roots: vec!["/nexoravm-missing".to_string()],
        path_dirs: vec!["/nexoravm-missing/bin".to_string()],
    }
}
use nexoravm::vm_config::{NetworkMode, OperatingSystem, VmConfiguration};

/// A host on which every version query fails.
struct HostWithoutQemu;

impl QemuHost for HostWithoutQemu {
    fn version_output(&self, _executable: &str, _arguments: &Vec<String>) -> Result<(bool, String), String> {
        Err("QEMU was found, but its version could not be queried.".to_string())
    }
    fn unix_seconds(&self) -> u64 {
        1_725_029_869
    }
    fn is_windows(&self) -> bool {
        false
    }
}

/// A host on which every executable answers the version query with `output`.
struct HostAnswering {
    output: Result<String, String>,
}

impl QemuHost for HostAnswering {
    fn version_output(&self, _executable: &str, arguments: &Vec<String>) -> Result<(bool, String), String> {
        assert_eq!(arguments, &vec!["--version".to_string()]);
        self.output.clone().map(|out| (true, out))
    }
    fn unix_seconds(&self) -> u64 {
        7
    }
    fn is_windows(&self) -> bool {
        true
    }
}

/// A path that names an existing regular file on the machine that runs the tests.
fn current_exe() -> String {
    "/proc/self/exe".to_string()
}

#[test]
fn invalid_configured_path_reports_unavailable_without_panicking() {
    let settings = AppSettings {
        qemu_executable_path: Some("C:\\definitely\\missing\\qemu.exe".to_string()),
        ..AppSettings::default()
    };
    let status = QemuRuntimeAdapter.discover_capabilities(&settings, &no_dirs(), &mut ProbeHost::new(HostWithoutQemu)).unwrap();
    assert_eq!(status.availability, CapabilityState::Unavailable);
    assert!(status
        .diagnostics
        .iter()
        .any(|item| item.code == "configured_qemu_path_invalid"));
}

#[test]
fn version_parser_extracts_qemu_line() {
    assert_eq!(
        parse_qemu_version("QEMU emulator version 9.0.0\nCopyright"),
        Some("QEMU emulator version 9.0.0".to_string())
    );
}

#[test]
fn version_parser_skips_other_lines_and_trims() {
    assert_eq!(
        parse_qemu_version("warning: something\r\n  qemu-system-x86_64 version 8.2.1  \r\nmore"),
        Some("qemu-system-x86_64 version 8.2.1".to_string())
    );
    assert_eq!(parse_qemu_version("no version here\n\n"), None);
    assert_eq!(parse_qemu_version(""), None);
    assert_eq!(parse_qemu_version("QeMu"), Some("QeMu".to_string()));
}

#[test]
fn missing_executable_returns_structured_version_error() {
    assert!(detect_qemu_version(&mut ProbeHost::new(HostWithoutQemu), "missing-qemu-executable").is_err());
}

#[test]
fn unrecognized_version_output_is_an_error() {
    let host = HostAnswering { output: Ok("hello".to_string()) };
    assert_eq!(
        detect_qemu_version(&mut ProbeHost::new(host), "x").unwrap_err(),
        "QEMU returned an unrecognized version."
    );
}

#[test]
fn runtime_status_has_typed_states() {
    let status = QemuRuntimeAdapter
        .discover_capabilities(&AppSettings::default(), &no_dirs(), &mut ProbeHost::new(HostWithoutQemu))
        .unwrap();
    assert_eq!(status.runtime_type, RuntimeType::Qemu);
    assert!(matches!(
        status.availability,
        CapabilityState::Available | CapabilityState::Unavailable | CapabilityState::Error
    ));
    assert_eq!(status.last_checked, "1725029869s since UNIX epoch");
    assert_eq!(status.whpx.state, CapabilityState::Unsupported);
    assert_eq!(status.diagnostics.len(), 1);
    assert_eq!(status.diagnostics[0].code, "qemu_not_found");
}

#[test]
fn found_qemu_with_version_is_available() {
    let host = HostAnswering { output: Ok("QEMU emulator version 9.0.0\n".to_string()) };
    let settings = AppSettings { qemu_executable_path: Some(current_exe()), ..AppSettings::default() };
    let status = discover_qemu_capabilities(&settings, &no_dirs(), &mut ProbeHost::new(host)).unwrap();
    assert_eq!(status.availability, CapabilityState::Available);
    assert_eq!(status.detected_qemu_path, Some(current_exe()));
    assert_eq!(status.qemu_version, Some("QEMU emulator version 9.0.0".to_string()));
    assert!(status.diagnostics.is_empty());
    assert_eq!(status.whpx.state, CapabilityState::Unknown);
    assert_eq!(status.virtualization.state, CapabilityState::Unknown);
    assert_eq!(status.last_checked, "7s since UNIX epoch");
}

#[test]
fn configured_path_is_tried_first_and_version_errors_are_reported() {
    let settings = AppSettings { qemu_executable_path: Some(format!("  {}  ", current_exe())), ..AppSettings::default() };
    let host = HostAnswering { output: Err("QEMU version detection timed out.".to_string()) };
    let status = discover_qemu_capabilities(&settings, &no_dirs(), &mut ProbeHost::new(host)).unwrap();
    assert_eq!(status.detected_qemu_path, Some(current_exe()));
    assert_eq!(status.availability, CapabilityState::Error);
    assert_eq!(status.qemu_version, None);
    assert_eq!(status.diagnostics.len(), 1);
    assert_eq!(status.diagnostics[0].code, "qemu_version_error");
    assert_eq!(status.diagnostics[0].message, "QEMU version detection timed out.");
    assert_eq!(status.configured_qemu_path, settings.qemu_executable_path);
}

#[test]
fn platform_diagnostics_follow_the_host() {
    let (whpx, virtualization) = platform_diagnostics(true);
    assert_eq!(whpx.state, CapabilityState::Unknown);
    assert_eq!(virtualization.state, CapabilityState::Unknown);
    let (whpx, virtualization) = platform_diagnostics(false);
    assert_eq!(whpx.state, CapabilityState::Unsupported);
    assert_eq!(virtualization.detail, "Windows virtualization diagnostics are supported only on Windows.");
    assert_eq!(current_timestamp(&HostWithoutQemu), "1725029869s since UNIX epoch");
}

#[test]
fn timestamps_are_decimal_seconds() {
    assert_eq!(format_timestamp(0), "0s since UNIX epoch");
    assert_eq!(format_timestamp(7), "7s since UNIX epoch");
    assert_eq!(format_timestamp(u64::MAX), "18446744073709551615s since UNIX epoch");
}

#[test]
fn placeholder_lifecycle_methods_remain_not_implemented() {
    let adapter = QemuRuntimeAdapter;
    assert_eq!(adapter.start_vm("vm-test").unwrap_err().code, "not_implemented");
    assert_eq!(adapter.stop_vm("vm-test").unwrap_err().code, "not_implemented");
    let configuration = VmConfiguration {
        id: "vm-test".to_string(),
        name: "Test".to_string(),
        operating_system: OperatingSystem::Linux,
        cpu_count: 2,
        memory_mi_b: 4096,
        disk_size_gi_b: 64,
        disk_path: None,
        iso_path: String::new(),
        network_mode: NetworkMode::User,
        display_mode: DisplayMode::Windowed,
        secure_boot_enabled: false,
        tpm_enabled: false,
    };
    assert_eq!(
        adapter.create_vm_definition(&configuration).unwrap_err().code,
        "not_implemented"
    );
    assert!(!adapter.check_availability().unwrap().available);
    let mut invalid = configuration.clone();
    invalid.cpu_count = 0;
    assert_eq!(adapter.create_vm_definition(&invalid).unwrap_err().field, Some("cpuCount"));
    assert!(adapter
        .build_command_spec(&configuration, &QemuRuntimeAdapter
            .discover_capabilities(&AppSettings::default(), &no_dirs(), &mut ProbeHost::new(HostWithoutQemu))
            .unwrap(), &QemuBootMode::Normal)
        .is_err());
}

#[test]
fn configured_path_comes_first_then_candidates() {
    let candidates = vec!["/nexoravm-missing/qemu".to_string(), "/proc/self/exe".to_string()];
    let mut diagnostics = Vec::new();
    let configured = AppSettings {
        qemu_executable_path: Some("  /proc/self/exe ".to_string()),
        ..AppSettings::default()
    };
    let found = choose_qemu_executable(&configured, &Vec::new(), &mut diagnostics);
    assert_eq!(found, Some("/proc/self/exe".to_string()));
    assert!(diagnostics.is_empty());

    let broken = AppSettings {
        qemu_executable_path: Some("/nexoravm-missing/configured".to_string()),
        ..AppSettings::default()
    };
    let found = choose_qemu_executable(&broken, &candidates, &mut diagnostics);
    assert_eq!(found, Some("/proc/self/exe".to_string()));
    assert_eq!(diagnostics.len(), 1);
    assert_eq!(diagnostics[0].code, "configured_qemu_path_invalid");

    let mut none = Vec::new();
    assert_eq!(choose_qemu_executable(&AppSettings::default(), &Vec::new(), &mut none), None);
    assert!(none.is_empty());
}

#[test]
fn version_probe_waits_polls_and_gives_up() {
    assert_eq!(version_probe_step(0, Some(true)), ProbeStep::Finished);
    assert_eq!(version_probe_step(5000, Some(true)), ProbeStep::Finished);
    assert_eq!(version_probe_step(0, Some(false)), ProbeStep::Sleep(10));
    assert_eq!(version_probe_step(1999, Some(false)), ProbeStep::Sleep(VERSION_POLL_INTERVAL_MILLIS));
    assert_eq!(
        version_probe_step(2000, Some(false)),
        ProbeStep::Abandon("QEMU version detection timed out.".to_string())
    );
    assert_eq!(
        version_probe_step(3, None),
        ProbeStep::Abandon("QEMU version detection could not be completed.".to_string())
    );
}

#[test]
fn version_output_is_rejected_unless_the_query_succeeded() {
    assert_eq!(
        version_from_output(false, "QEMU emulator version 9.0.0"),
        Err("QEMU rejected the version query.".to_string())
    );
    assert_eq!(
        version_from_output(true, "QEMU emulator version 9.0.0\n"),
        Ok("QEMU emulator version 9.0.0".to_string())
    );
    assert_eq!(
        version_from_output(true, "nothing"),
        Err("QEMU returned an unrecognized version.".to_string())
    );
}

/// A host whose version query runs but exits unsuccessfully.
struct HostRejecting;

impl QemuHost for HostRejecting {
    fn version_output(&self, _executable: &str, _arguments: &Vec<String>) -> Result<(bool, String), String> {
        Ok((false, "QEMU emulator version 9.0.0".to_string()))
    }
    fn unix_seconds(&self) -> u64 {
        0
    }
    fn is_windows(&self) -> bool {
        false
    }
}

#[test]
fn rejected_version_query_is_a_version_error() {
    assert_eq!(
        detect_qemu_version(&mut ProbeHost::new(HostRejecting), "qemu").unwrap_err(),
        "QEMU rejected the version query."
    );
    let settings = AppSettings { qemu_executable_path: Some(current_exe()), ..AppSettings::default() };
    let status = discover_qemu_capabilities(&settings, &no_dirs(), &mut ProbeHost::new(HostRejecting)).unwrap();
    assert_eq!(status.availability, CapabilityState::Error);
    assert_eq!(status.detected_qemu_path, Some(current_exe()));
    assert_eq!(status.diagnostics[0].code, "qemu_version_error");
    assert_eq!(status.diagnostics[0].message, "QEMU rejected the version query.");
}
