use nexoravm::settings::DisplayMode;
use nexoravm::vm_config::{NetworkMode, OperatingSystem, VmConfiguration};
use nexoravm::vm_definitions::{
    add_definition, create_definition, delete_definition, get_definition, update_definition,
    validate_id, validate_loaded_definitions, VmDefinition, VmStatus,
};

fn configuration(id: &str) -> VmConfiguration {
    VmConfiguration {
        id: id.to_string(),
        name: "Test VM".to_string(),
        operating_system: OperatingSystem::Linux,
        cpu_count: 2,
        memory_mi_b: 4096,
        disk_size_gi_b: 64,
        disk_path: None,
        iso_path: String::new(),
        network_mode: NetworkMode::User,
        display_mode: DisplayMode::Windowed,
        secure_boot_enabled: false,
        tpm_enabled: false,
    }
}

fn definition(id: &str) -> VmDefinition {
    VmDefinition { configuration: configuration(id), status: VmStatus::Stopped }
}

#[test]
fn new_vm_status_defaults_to_stopped() {
    assert_eq!(VmStatus::default(), VmStatus::Stopped);
}

#[test]
fn duplicate_ids_are_rejected() {
    let definition = definition("vm-duplicate");
    let error = validate_loaded_definitions(&[definition.clone(), definition]).unwrap_err();
    assert_eq!(error.code, "conflict");
}

#[test]
fn missing_ids_are_rejected() {
    let definitions = vec![definition("")];
    assert_eq!(validate_loaded_definitions(&definitions).unwrap_err().field, Some("id"));
}

#[test]
fn distinct_valid_definitions_are_accepted() {
    let definitions = vec![definition("vm-a"), definition("vm-b"), definition("vm-c")];
    assert!(validate_loaded_definitions(&definitions).is_ok());
    assert!(validate_loaded_definitions(&[]).is_ok());
}

#[test]
fn first_failure_in_list_order_is_reported() {
    let mut bad = definition("vm-b");
    bad.configuration.cpu_count = 0;
    let definitions = vec![definition("vm-a"), bad, definition("vm-a")];
    assert_eq!(validate_loaded_definitions(&definitions).unwrap_err().field, Some("cpuCount"));
}

#[test]
fn id_validation_matches_configuration_rules() {
    assert!(validate_id("vm-test_1").is_ok());
    assert_eq!(validate_id("").unwrap_err().message, "VM id is required.");
    assert_eq!(validate_id("vm/x").unwrap_err().field, Some("id"));
}

#[test]
fn read_after_add_update_and_delete() {
    let mut definitions = vec![definition("vm-a")];
    let added = add_definition(&mut definitions, configuration("ignored"), "vm-b".to_string()).unwrap();
    assert_eq!(added.configuration.id, "vm-b");
    assert_eq!(added.status, VmStatus::Stopped);
    assert_eq!(get_definition(&definitions, "vm-b").unwrap().configuration.id, "vm-b");

    let mut changed = configuration("vm-b");
    changed.name = "Renamed".to_string();
    let updated = update_definition(&mut definitions, changed).unwrap();
    assert_eq!(updated.configuration.name, "Renamed");
    assert_eq!(get_definition(&definitions, "vm-b").unwrap().configuration.name, "Renamed");

    delete_definition(&mut definitions, "vm-b").unwrap();
    assert_eq!(get_definition(&definitions, "vm-b").unwrap_err().code, "not_found");
    assert_eq!(get_definition(&definitions, "vm-a").unwrap().configuration.id, "vm-a");
    assert_eq!(definitions.len(), 1);
}

#[test]
fn store_errors_are_structured() {
    let mut definitions = vec![definition("vm-a")];
    let error = add_definition(&mut definitions, configuration("x"), "vm-a".to_string()).unwrap_err();
    assert_eq!(error.code, "conflict");
    assert_eq!(error.message, "A VM definition with this generated id already exists.");
    let error = update_definition(&mut definitions, configuration("vm-z")).unwrap_err();
    assert_eq!(error.code, "not_found");
    let error = delete_definition(&mut definitions, "vm-z").unwrap_err();
    assert_eq!(error.code, "not_found");
    let error = get_definition(&definitions, "bad id").unwrap_err();
    assert_eq!(error.code, "validation_error");
    assert_eq!(definitions.len(), 1);
}

#[test]
fn created_definitions_get_a_fresh_generated_id() {
    let mut definitions = Vec::new();
    let first = create_definition(&mut definitions, configuration("")).unwrap();
    let second = create_definition(&mut definitions, configuration("")).unwrap();
    assert_eq!(first.configuration.id.len(), 35);
    assert!(first.configuration.id.starts_with("vm-"));
    assert!(first.configuration.id[3..].chars().all(|c| c.is_ascii_hexdigit() && !c.is_ascii_uppercase()));
    assert_ne!(first.configuration.id, second.configuration.id);
    for id in [&first.configuration.id, &second.configuration.id] {
        let digits: Vec<char> = id[3..].chars().collect();
        assert_eq!(digits[12], '4');
        assert!(matches!(digits[16], '8' | '9' | 'a' | 'b'));
    }
    assert_eq!(definitions.len(), 2);
    assert!(validate_loaded_definitions(&definitions).is_ok());
    let mut invalid = configuration("");
    invalid.memory_mi_b = 1;
    assert_eq!(create_definition(&mut definitions, invalid).unwrap_err().field, Some("memoryMiB"));
    assert_eq!(definitions.len(), 2);
}
