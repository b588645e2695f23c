use nexoravm::qemu_command::{
    build_qemu_command_spec, build_qemu_command_spec_from, check_iso_path_for_launch,
    check_qemu_command_spec, validate_iso_path_for_launch, validate_qemu_command_spec,
    QemuAcceleration, QemuBootMode, QemuCommandSpec, QemuDisplayMode, QemuNetworkMode,
};
use nexoravm::runtime_adapter::{CapabilityState, CapabilityStatus, RuntimeStatus, RuntimeType};
use nexoravm::settings::DisplayMode;
use nexoravm::vm_config::{NetworkMode, OperatingSystem, VmConfiguration};

/// A path that names an existing regular file on the machine that runs the tests.
fn current_exe() -> String {
    "/proc/self/exe".to_string()
}

fn config() -> VmConfiguration {
    VmConfiguration {
        id: "vm-test".to_string(),
        name: "Test VM".to_string(),
        operating_system: OperatingSystem::Linux,
        cpu_count: 4,
        memory_mi_b: 8192,
        disk_size_gi_b: 64,
        disk_path: Some(current_exe()),
        iso_path: "C:\\ISOs\\linux.iso".to_string(),
        network_mode: NetworkMode::User,
        display_mode: DisplayMode::Windowed,
        secure_boot_enabled: false,
        tpm_enabled: false,
    }
}

fn boot_config(boot_mode: QemuBootMode) -> VmConfiguration {
    let mut config = config();
    if matches!(boot_mode, QemuBootMode::Install) {
        config.iso_path = "C:\\ISOs\\linux.iso".to_string();
        config.disk_path = Some(current_exe());
    } else {
        config.iso_path = String::new();
        config.disk_path = Some(current_exe());
    }
    config
}

fn status() -> RuntimeStatus {
    RuntimeStatus {
        runtime_type: RuntimeType::Qemu,
        availability: CapabilityState::Available,
        configured_qemu_path: None,
        detected_qemu_path: Some("C:\\Program Files\\qemu\\qemu-system-x86_64.exe".to_string()),
        qemu_version: Some("QEMU emulator version 9.0.0".to_string()),
        whpx: CapabilityStatus { state: CapabilityState::Unknown, detail: String::new() },
        virtualization: CapabilityStatus { state: CapabilityState::Unknown, detail: String::new() },
        diagnostics: Vec::new(),
        last_checked: String::new(),
    }
}

fn test_status() -> RuntimeStatus {
    let mut result = status();
    result.detected_qemu_path = Some(current_exe());
    result
}

fn has_pair(arguments: &[String], first: &str, second: &str) -> bool {
    arguments.windows(2).any(|pair| pair[0] == first && pair[1] == second)
}

#[test]
fn arguments_are_deterministic_and_ordered() {
    let first = build_qemu_command_spec(&config(), &test_status(), &QemuBootMode::Normal).unwrap();
    let second = build_qemu_command_spec(&config(), &test_status(), &QemuBootMode::Normal).unwrap();
    assert_eq!(first, second);
    assert_eq!(&first.arguments[..4], &["-name", "Test VM", "-machine", "q35"]);
}

#[test]
fn install_mode_attaches_iso_and_disks_normally_boots_disk() {
    let install = build_qemu_command_spec(
        &boot_config(QemuBootMode::Install),
        &test_status(),
        &QemuBootMode::Install,
    )
    .unwrap();
    let normal = build_qemu_command_spec(
        &boot_config(QemuBootMode::Normal),
        &test_status(),
        &QemuBootMode::Normal,
    )
    .unwrap();
    assert!(has_pair(&install.arguments, "-boot", "order=d"));
    assert!(has_pair(&install.arguments, "-cdrom", "C:\\ISOs\\linux.iso"));
    assert!(install
        .arguments
        .windows(2)
        .any(|pair| pair[0] == "-drive" && pair[1].starts_with("file=")));
    assert!(has_pair(&normal.arguments, "-boot", "order=c"));
    assert!(!has_pair(&normal.arguments, "-cdrom", "C:\\ISOs\\linux.iso"));
}

#[test]
fn cpu_memory_iso_and_disk_arguments_are_separate() {
    let spec = build_qemu_command_spec(
        &boot_config(QemuBootMode::Install),
        &test_status(),
        &QemuBootMode::Install,
    )
    .unwrap();
    assert!(has_pair(&spec.arguments, "-smp", "4"));
    assert!(has_pair(&spec.arguments, "-m", "8192"));
    assert!(has_pair(&spec.arguments, "-cdrom", "C:\\ISOs\\linux.iso"));
    assert!(spec.arguments.iter().any(|argument| argument.starts_with("file=")));
}

#[test]
fn display_and_network_modes_map_safely() {
    let spec = build_qemu_command_spec(
        &boot_config(QemuBootMode::Normal),
        &test_status(),
        &QemuBootMode::Normal,
    )
    .unwrap();
    assert_eq!(spec.display_mode, QemuDisplayMode::Sdl);
    assert_eq!(spec.network_mode, QemuNetworkMode::User);
    let mut bridged = config();
    bridged.network_mode = NetworkMode::Bridged;
    assert_eq!(
        build_qemu_command_spec(&bridged, &test_status(), &QemuBootMode::Normal)
            .unwrap_err()
            .code,
        "unsupported"
    );
}

#[test]
fn whpx_is_selected_only_when_available() {
    let mut runtime_status = test_status();
    runtime_status.whpx.state = CapabilityState::Available;
    let spec = build_qemu_command_spec(
        &boot_config(QemuBootMode::Normal),
        &runtime_status,
        &QemuBootMode::Normal,
    )
    .unwrap();
    assert_eq!(spec.acceleration, QemuAcceleration::Whpx);
}

#[test]
fn invalid_values_and_shell_like_names_are_rejected() {
    let mut invalid = config();
    invalid.name = "unsafe; name".to_string();
    assert_eq!(
        build_qemu_command_spec(&invalid, &test_status(), &QemuBootMode::Normal)
            .unwrap_err()
            .field,
        Some("name")
    );
    invalid.name = "Test VM".to_string();
    invalid.cpu_count = 0;
    assert_eq!(
        build_qemu_command_spec(&invalid, &test_status(), &QemuBootMode::Normal)
            .unwrap_err()
            .field,
        Some("cpuCount")
    );
    invalid.cpu_count = 4;
    invalid.disk_path = Some("C:\\bad|path".to_string());
    assert_eq!(
        build_qemu_command_spec(&invalid, &test_status(), &QemuBootMode::Normal)
            .unwrap_err()
            .field,
        Some("diskPath")
    );
}

#[test]
fn boot_mode_is_serialized_on_command_spec() {
    let spec = build_qemu_command_spec(
        &boot_config(QemuBootMode::Install),
        &test_status(),
        &QemuBootMode::Install,
    )
    .unwrap();
    assert_eq!(spec.boot_mode, QemuBootMode::Install);
    let spec = build_qemu_command_spec(
        &boot_config(QemuBootMode::Normal),
        &test_status(),
        &QemuBootMode::Normal,
    )
    .unwrap();
    assert_eq!(spec.boot_mode, QemuBootMode::Normal);
}

#[test]
fn normal_boot_rejects_missing_disk() {
    let mut no_disk = config();
    no_disk.disk_path = None;
    let error = build_qemu_command_spec(&no_disk, &test_status(), &QemuBootMode::Normal).unwrap_err();
    assert_eq!(error.field, Some("bootMode"));
    assert!(error.message.contains("disk"));
}

#[test]
fn install_boot_rejects_missing_iso() {
    let mut no_iso = config();
    no_iso.iso_path = String::new();
    let error = build_qemu_command_spec(&no_iso, &test_status(), &QemuBootMode::Install).unwrap_err();
    assert_eq!(error.field, Some("bootMode"));
    assert!(error.message.contains("ISO"));
}

#[test]
fn install_boot_rejects_missing_disk() {
    let mut no_disk = boot_config(QemuBootMode::Install);
    no_disk.disk_path = None;
    let error = build_qemu_command_spec(&no_disk, &test_status(), &QemuBootMode::Install).unwrap_err();
    assert_eq!(error.field, Some("bootMode"));
    assert_eq!(error.message, "Install mode requires an existing persistent disk path.");

    let mut absent_disk = boot_config(QemuBootMode::Install);
    absent_disk.disk_path = Some("/nexoravm-missing-directory/disk.qcow2".to_string());
    let error =
        build_qemu_command_spec(&absent_disk, &test_status(), &QemuBootMode::Install).unwrap_err();
    assert_eq!(error.field, Some("bootMode"));
}

#[test]
fn normal_mode_omits_iso_cdrom() {
    let spec = build_qemu_command_spec(&config(), &test_status(), &QemuBootMode::Normal).unwrap();
    assert!(!spec.arguments.iter().any(|argument| argument == "-cdrom"));
}

#[test]
fn install_mode_includes_iso_cdrom() {
    let spec = build_qemu_command_spec(
        &boot_config(QemuBootMode::Install),
        &test_status(),
        &QemuBootMode::Install,
    )
    .unwrap();
    assert!(spec.arguments.iter().any(|argument| argument == "-cdrom"));
}

#[test]
fn empty_iso_path_is_rejected() {
    let error = validate_iso_path_for_launch("").unwrap_err();
    assert_eq!(error.field, Some("isoPath"));
    assert!(error.message.contains("non-empty"));
}

#[test]
fn whitespace_only_iso_path_is_rejected() {
    let error = validate_iso_path_for_launch("   ").unwrap_err();
    assert_eq!(error.field, Some("isoPath"));
}

#[test]
fn nonexistent_iso_path_is_rejected() {
    let error = validate_iso_path_for_launch("C:\\ISOs\\does-not-exist.iso").unwrap_err();
    assert_eq!(error.field, Some("isoPath"));
    assert!(error.message.contains("does not exist"));
}

#[test]
fn directory_iso_path_is_rejected() {
    let error = validate_iso_path_for_launch("/tmp").unwrap_err();
    assert_eq!(error.field, Some("isoPath"));
    assert!(error.message.contains("directory") || error.message.contains("regular file"));
}

#[test]
fn existing_file_iso_path_is_accepted() {
    assert!(validate_iso_path_for_launch(&current_exe()).is_ok());
}

#[test]
fn full_command_line_for_a_normal_boot() {
    let spec = build_qemu_command_spec_from(&config(), &status(), QemuBootMode::Normal, true, true, false).unwrap();
    let expected: Vec<String> = [
        "-name", "Test VM", "-machine", "q35", "-smp", "4", "-m", "8192", "-accel", "tcg",
        "-display", "sdl", "-nic", "user", "-boot", "order=c", "-drive",
    ]
    .iter()
    .map(|s| s.to_string())
    .chain([format!("file={},format=qcow2", current_exe())])
    .collect();
    assert_eq!(spec.arguments, expected);
    assert_eq!(spec.executable_path, "C:\\Program Files\\qemu\\qemu-system-x86_64.exe");
    assert_eq!(spec.vm_id, "vm-test");
    assert_eq!(spec.working_directory, None);
}

#[test]
fn display_modes_and_headless_network_off() {
    let mut c = config();
    c.display_mode = DisplayMode::Fullscreen;
    c.network_mode = NetworkMode::Disabled;
    let spec = build_qemu_command_spec_from(&c, &status(), QemuBootMode::Normal, true, true, false).unwrap();
    assert!(has_pair(&spec.arguments, "-display", "gtk,full-screen=on"));
    assert!(has_pair(&spec.arguments, "-nic", "none"));
    assert_eq!(spec.network_mode, QemuNetworkMode::NoNetwork);
    c.display_mode = DisplayMode::Headless;
    let spec = build_qemu_command_spec_from(&c, &status(), QemuBootMode::Normal, true, true, false).unwrap();
    assert!(has_pair(&spec.arguments, "-display", "none"));
    assert_eq!(spec.display_mode, QemuDisplayMode::NoDisplay);
}

#[test]
fn runtime_must_be_available_and_executable_real() {
    let mut unavailable = status();
    unavailable.availability = CapabilityState::Unavailable;
    let error = build_qemu_command_spec_from(&config(), &unavailable, QemuBootMode::Normal, true, true, false).unwrap_err();
    assert_eq!(error.code, "runtime_error");
    let mut undetected = status();
    undetected.detected_qemu_path = None;
    let error = build_qemu_command_spec_from(&config(), &undetected, QemuBootMode::Normal, true, true, false).unwrap_err();
    assert_eq!(error.message, "No detected QEMU executable is available.");
    let error = build_qemu_command_spec_from(&config(), &status(), QemuBootMode::Normal, true, false, false).unwrap_err();
    assert_eq!(error.field, Some("executablePath"));
    let error = build_qemu_command_spec_from(&config(), &status(), QemuBootMode::Normal, false, true, false).unwrap_err();
    assert_eq!(error.field, Some("bootMode"));
}

#[test]
fn disk_paths_with_commas_are_rejected() {
    let mut c = config();
    c.disk_path = Some("D:\\vm,1.qcow2".to_string());
    let error = build_qemu_command_spec_from(&c, &status(), QemuBootMode::Normal, true, true, false).unwrap_err();
    assert_eq!(error.field, Some("diskPath"));
    assert_eq!(error.message, "Disk paths cannot contain commas in the command preview.");
}

fn launch_spec() -> QemuCommandSpec {
    QemuCommandSpec {
        executable_path: current_exe(),
        arguments: vec!["--help".to_string()],
        working_directory: None,
        vm_id: "vm-test".to_string(),
        diagnostics: Vec::new(),
        acceleration: QemuAcceleration::Tcg,
        display_mode: QemuDisplayMode::NoDisplay,
        network_mode: QemuNetworkMode::NoNetwork,
        boot_mode: QemuBootMode::Normal,
    }
}

#[test]
fn launch_check_refuses_shells_and_control_input() {
    assert!(validate_qemu_command_spec(&launch_spec()).is_ok());
    let mut shell = launch_spec();
    shell.arguments = vec!["-c".to_string()];
    assert_eq!(check_qemu_command_spec(&shell, true).unwrap_err().field, Some("arguments"));
    shell.arguments = vec!["powershell".to_string()];
    assert_eq!(check_qemu_command_spec(&shell, true).unwrap_err().field, Some("arguments"));
    shell.arguments = vec!["ok\nnot".to_string()];
    assert_eq!(check_qemu_command_spec(&shell, true).unwrap_err().field, Some("arguments"));
    let mut no_id = launch_spec();
    no_id.vm_id = " ".to_string();
    assert_eq!(check_qemu_command_spec(&no_id, true).unwrap_err().field, Some("vmId"));
    assert_eq!(check_qemu_command_spec(&launch_spec(), false).unwrap_err().field, Some("executablePath"));
}

#[test]
fn built_command_passes_the_launch_check() {
    let spec = build_qemu_command_spec(&config(), &test_status(), &QemuBootMode::Normal).unwrap();
    assert!(validate_qemu_command_spec(&spec).is_ok());
}

#[test]
fn iso_launch_check_reports_each_file_state() {
    assert_eq!(check_iso_path_for_launch("a.iso", false, false, false).unwrap_err().message, "ISO path does not exist.");
    assert_eq!(
        check_iso_path_for_launch("a.iso", true, true, false).unwrap_err().message,
        "ISO path must be a regular file, not a directory."
    );
    assert_eq!(
        check_iso_path_for_launch("a.iso", true, false, false).unwrap_err().message,
        "ISO path must refer to a regular file."
    );
    assert!(check_iso_path_for_launch("a.iso", true, false, true).is_ok());
}
