use nexoravm::settings::{settings_or_default, AppSettings, CommandError, DisplayMode};

#[test]
fn invalid_settings_recover_to_defaults() {
    let invalid_settings = AppSettings {
        qemu_executable_path: None,
        default_vm_storage_path: None,
        default_iso_path: None,
        default_memory_mi_b: 128,
        default_cpu_count: 2,
        preferred_display_mode: DisplayMode::Windowed,
        start_minimized: false,
        check_for_updates: true,
    };
    assert_eq!(settings_or_default(Some(invalid_settings)), AppSettings::default());
}

#[test]
fn malformed_settings_recover_to_defaults() {
    // Text that is not JSON parses to nothing, which is what `None` stands for.
    assert!(serde_json::from_str::<serde_json::Value>("{ not valid json").is_err());
    assert_eq!(settings_or_default(None), AppSettings::default());
}

#[test]
fn valid_settings_are_kept() {
    let settings = AppSettings {
        qemu_executable_path: Some("C:\\qemu\\qemu-system-x86_64.exe".to_string()),
        default_memory_mi_b: 8192,
        default_cpu_count: 8,
        preferred_display_mode: DisplayMode::Headless,
        ..AppSettings::default()
    };
    assert_eq!(settings_or_default(Some(settings.clone())), settings);
}

#[test]
fn default_settings_are_documented_values() {
    let settings = AppSettings::default();
    assert_eq!(settings.default_memory_mi_b, 4096);
    assert_eq!(settings.default_cpu_count, 2);
    assert_eq!(settings.preferred_display_mode, DisplayMode::Windowed);
    assert!(!settings.start_minimized);
    assert!(settings.check_for_updates);
    assert!(settings.qemu_executable_path.is_none());
    assert!(settings.validate().is_ok());
}

#[test]
fn settings_paths_must_not_be_blank() {
    let settings = AppSettings {
        default_iso_path: Some("   ".to_string()),
        ..AppSettings::default()
    };
    let error = settings.validate().unwrap_err();
    assert_eq!(error.field, Some("defaultIsoPath"));
    assert_eq!(error.message, "Path cannot be empty.");
    assert_eq!(error.code, "validation_error");
}

#[test]
fn settings_report_the_first_failing_rule() {
    let settings = AppSettings {
        default_vm_storage_path: Some("D:\\VMs\\\u{0}".to_string()),
        default_memory_mi_b: 1,
        default_cpu_count: 0,
        ..AppSettings::default()
    };
    let error = settings.validate().unwrap_err();
    assert_eq!(error.field, Some("defaultVmStoragePath"));
    assert_eq!(error.message, "Path contains invalid control characters.");
    let settings = AppSettings { default_cpu_count: 0, ..AppSettings::default() };
    let error = settings.validate().unwrap_err();
    assert_eq!(error.field, Some("defaultCpuCount"));
    assert_eq!(error.message, "CPU count must be between 1 and 128.");
    let settings = AppSettings { default_memory_mi_b: 262_145, ..AppSettings::default() };
    assert_eq!(settings.validate().unwrap_err().field, Some("defaultMemoryMiB"));
}

#[test]
fn error_constructors_set_codes() {
    assert_eq!(CommandError::storage("disk full").code, "storage_error");
    assert_eq!(CommandError::not_found("missing").code, "not_found");
    assert_eq!(CommandError::conflict("taken").code, "conflict");
    assert_eq!(CommandError::runtime("failed").code, "runtime_error");
    assert_eq!(CommandError::unsupported("bridged").code, "unsupported");
    let error = CommandError::validation("name", "bad");
    assert_eq!(error.code, "validation_error");
    assert_eq!(error.field, Some("name"));
    assert_eq!(error.message, "bad");
    assert_eq!(CommandError::storage("disk full").field, None);
}

#[test]
fn windows_characters_are_refused_only_on_windows() {
    let settings = AppSettings {
        qemu_executable_path: Some("a<b".to_string()),
        ..AppSettings::default()
    };
    let error = settings.validate_on(true).unwrap_err();
    assert_eq!(error.field, Some("qemuExecutablePath"));
    assert_eq!(error.message, "Path contains characters that are not valid on Windows.");
    assert!(settings.validate_on(false).is_ok());
    assert_eq!(settings.validate().is_ok(), std::path::MAIN_SEPARATOR != '\\');
}
