use nexoravm::settings::DisplayMode;
use nexoravm::vm_config::{NetworkMode, OperatingSystem, VmConfiguration};

fn valid_configuration() -> VmConfiguration {
    VmConfiguration {
        id: "vm-test".to_string(),
        name: "Test VM".to_string(),
        operating_system: OperatingSystem::Linux,
        cpu_count: 2,
        memory_mi_b: 4096,
        disk_size_gi_b: 64,
        disk_path: None,
        iso_path: String::new(),
        network_mode: NetworkMode::User,
        display_mode: DisplayMode::Windowed,
        secure_boot_enabled: false,
        tpm_enabled: false,
    }
}

#[test]
fn valid_configuration_passes_validation() {
    assert!(valid_configuration().validate().is_ok());
}

#[test]
fn invalid_resources_and_name_are_rejected() {
    let mut configuration = valid_configuration();
    configuration.cpu_count = 0;
    assert_eq!(configuration.validate().unwrap_err().field, Some("cpuCount"));

    configuration.cpu_count = 2;
    configuration.memory_mi_b = 128;
    assert_eq!(configuration.validate().unwrap_err().field, Some("memoryMiB"));

    configuration.memory_mi_b = 4096;
    configuration.disk_size_gi_b = 0;
    assert_eq!(configuration.validate().unwrap_err().field, Some("diskSizeGiB"));

    configuration.disk_size_gi_b = 64;
    configuration.name = "  ".to_string();
    assert_eq!(configuration.validate().unwrap_err().field, Some("name"));
}

#[test]
fn resource_bounds_are_inclusive() {
    let mut configuration = valid_configuration();
    configuration.cpu_count = 128;
    configuration.memory_mi_b = 512;
    configuration.disk_size_gi_b = 1_048_576;
    assert!(configuration.validate().is_ok());
    configuration.memory_mi_b = 262_144;
    configuration.disk_size_gi_b = 1;
    assert!(configuration.validate().is_ok());
    configuration.cpu_count = 129;
    assert_eq!(configuration.validate().unwrap_err().field, Some("cpuCount"));
    configuration.cpu_count = 1;
    configuration.memory_mi_b = 262_145;
    assert_eq!(configuration.validate().unwrap_err().field, Some("memoryMiB"));
    configuration.memory_mi_b = 511;
    assert_eq!(configuration.validate().unwrap_err().field, Some("memoryMiB"));
    configuration.memory_mi_b = 4096;
    configuration.disk_size_gi_b = 1_048_577;
    let error = configuration.validate().unwrap_err();
    assert_eq!(error.field, Some("diskSizeGiB"));
    assert_eq!(error.message, "Disk size must be between 1 GiB and 1048576 GiB.");
    assert_eq!(error.code, "validation_error");
}

#[test]
fn name_is_trimmed_and_limited_to_one_hundred_characters() {
    let mut configuration = valid_configuration();
    configuration.name = format!("  {}  ", "é".repeat(100));
    assert!(configuration.validate().is_ok());
    configuration.name = "x".repeat(101);
    let error = configuration.validate().unwrap_err();
    assert_eq!(error.field, Some("name"));
    assert_eq!(error.message, "VM name cannot exceed 100 characters.");
}

#[test]
fn vm_ids_are_checked_before_everything_else() {
    let mut configuration = valid_configuration();
    configuration.cpu_count = 0;
    configuration.id = "  ".to_string();
    let error = configuration.validate().unwrap_err();
    assert_eq!(error.field, Some("id"));
    assert_eq!(error.message, "VM id is required.");
    configuration.id = "vm test".to_string();
    assert_eq!(
        configuration.validate().unwrap_err().message,
        "VM id may contain only letters, numbers, hyphens, and underscores."
    );
    configuration.id = "a".repeat(65);
    assert_eq!(configuration.validate().unwrap_err().message, "VM id cannot exceed 64 characters.");
    configuration.id = format!(" {} ", "a".repeat(64));
    configuration.cpu_count = 2;
    assert!(configuration.validate().is_ok());
}

#[test]
fn iso_path_may_be_blank_but_not_hold_control_characters() {
    let mut configuration = valid_configuration();
    configuration.iso_path = "   ".to_string();
    assert!(configuration.validate().is_ok());
    configuration.iso_path = "C:\\ISOs\\a\u{7}.iso".to_string();
    let error = configuration.validate().unwrap_err();
    assert_eq!(error.field, Some("isoPath"));
    assert_eq!(error.message, "Path contains invalid control characters.");
    configuration.iso_path = "C:\\ISOs\\a?.iso".to_string();
    assert_eq!(
        configuration.validate_on(true).unwrap_err().message,
        "Path contains characters that are not valid on Windows."
    );
    assert!(configuration.validate_on(false).is_ok());
}

#[test]
fn disk_path_is_checked_before_saving() {
    let mut configuration = valid_configuration();
    configuration.disk_path = Some("bad\0disk.qcow2".to_string());
    let error = configuration.validate().unwrap_err();
    assert_eq!(error.code, "validation_error");
    assert_eq!(error.field, Some("diskPath"));
    assert_eq!(error.message, "Path contains invalid control characters.");
    configuration.disk_path = Some("/vm/a<b.qcow2".to_string());
    assert_eq!(configuration.validate_on(true).unwrap_err().field, Some("diskPath"));
    assert!(configuration.validate_on(false).is_ok());
    configuration.disk_path = None;
    assert!(configuration.validate().is_ok());
}

#[test]
fn windows_rules_follow_the_platform() {
    assert_eq!(nexoravm::settings::windows_paths(), std::path::MAIN_SEPARATOR == '\\');
}
