use nexoravm::disk_manager::{
    choose_from_answers, choose_qemu_img, create_with_qemu_img, creation_result, disk_action, disk_path_or_error,
    disk_status_from, find_qemu_img, qemu_img_create_args, DiskAction, DiskHost, DiskManager, DiskState,
    QemuDiskManager,
};
use nexoravm::search::SearchDirs;
use nexoravm::handles::QemuImgHost;
use nexoravm::settings::{AppSettings, DisplayMode};
use nexoravm::vm_config::{NetworkMode, OperatingSystem, VmConfiguration};
use std::cell::RefCell;

/// A path that names an existing regular file on the machine that runs the tests.
const EXISTING_FILE: &str = "/proc/self/exe";
/// A path that names an existing directory.
const EXISTING_DIR: &str = "/tmp";
/// A path under a directory that does not exist.
const MISSING_FILE: &str = "/nexoravm-missing-directory/disk.qcow2";

fn disk_config(path: &str) -> VmConfiguration {
    VmConfiguration {
        id: "vm-test".to_string(),
        name: "Test VM".to_string(),
        operating_system: OperatingSystem::Linux,
        cpu_count: 2,
        memory_mi_b: 4096,
        disk_size_gi_b: 64,
        disk_path: Some(path.to_string()),
        iso_path: String::new(),
        network_mode: NetworkMode::User,
        display_mode: DisplayMode::Windowed,
        secure_boot_enabled: false,
        tpm_enabled: false,
    }
}

/// A host that records what it was asked to run and answers with `succeed`.
struct RecordingHost {
    succeed: bool,
    runs: RefCell<Vec<(String, Vec<String>)>>,
}

impl DiskHost for RecordingHost {
    fn run_qemu_img(&self, executable: &str, arguments: &Vec<String>) -> Result<(bool, String), String> {
        self.runs.borrow_mut().push((executable.to_string(), arguments.clone()));
        Ok((self.succeed, if self.succeed { String::new() } else { "boom".to_string() }))
    }
}

fn host(succeed: bool) -> QemuImgHost<RecordingHost> {
    QemuImgHost::new(RecordingHost { succeed, runs: RefCell::new(Vec::new()) })
}

/// Search directories in which no `qemu-img` exists.
fn empty_dirs() -> SearchDirs {
    SearchDirs {
        program_files_roots: vec!["/nexoravm-missing-directory".to_string()],
        path_dirs: vec!["/nexoravm-missing-directory/bin".to_string()],
    }
}

#[test]
fn qemu_img_create_args_are_deterministic() {
    let path = "C:\\VMs\\test.qcow2";
    let args = qemu_img_create_args(path, 64, "qcow2");
    assert_eq!(args, vec!["create", "-f", "qcow2", "C:\\VMs\\test.qcow2", "64G"]);
}

#[test]
fn existing_disk_is_ready_without_overwrite() {
    let mut recording = host(true);
    let result = QemuDiskManager.create_disk(&disk_config(EXISTING_FILE), &empty_dirs(), &mut recording).unwrap();
    assert_eq!(result.state, DiskState::Ready);
    assert_eq!(
        result.message,
        Some("Disk image already exists; existing image is used.".to_string())
    );
    assert!(recording.host().runs.borrow().is_empty());
}

#[test]
fn directory_disk_path_is_rejected() {
    let mut recording = host(true);
    let error = QemuDiskManager
        .create_disk(&disk_config(EXISTING_DIR), &empty_dirs(), &mut recording)
        .unwrap_err();
    assert_eq!(error.field, Some("diskPath"));
    assert!(error.message.contains("regular file") || error.message.contains("directory"));
    assert!(recording.host().runs.borrow().is_empty());
}

#[test]
fn missing_disk_is_not_created() {
    let status = QemuDiskManager.status(&disk_config(MISSING_FILE)).unwrap();
    assert_eq!(status.state, DiskState::NotCreated);
}

#[test]
fn existing_disk_status_reports_ready() {
    let status = QemuDiskManager.status(&disk_config(EXISTING_FILE)).unwrap();
    assert_eq!(status.state, DiskState::Ready);
}

#[test]
fn missing_or_blank_disk_paths_are_rejected() {
    let mut config = disk_config("   ");
    assert_eq!(disk_path_or_error(&config).unwrap_err().message, "Disk path cannot be empty.");
    config.disk_path = None;
    let error = disk_path_or_error(&config).unwrap_err();
    assert_eq!(error.field, Some("diskPath"));
    assert_eq!(error.message, "A disk path is required for disk operations.");
    assert_eq!(disk_path_or_error(&disk_config("  D:\\a.qcow2 ")).unwrap(), "D:\\a.qcow2");
}

#[test]
fn new_disk_is_created_with_qemu_img() {
    let exe = EXISTING_FILE.to_string();
    let config = disk_config(MISSING_FILE);
    let arguments = qemu_img_create_args(MISSING_FILE, 64, "qcow2");
    let mut recording = host(true);
    let status =
        create_with_qemu_img(&mut recording, &config, MISSING_FILE.to_string(), &arguments, &exe).unwrap();
    assert_eq!(status.state, DiskState::Ready);
    assert_eq!(status.format, Some("qcow2".to_string()));
    assert_eq!(status.size_gi_b, Some(64));
    assert_eq!(status.path, Some(MISSING_FILE.to_string()));
    let runs = recording.host().runs.borrow();
    assert_eq!(runs.len(), 1);
    assert_eq!(runs[0].0, exe);
    assert_eq!(runs[0].1, vec!["create", "-f", "qcow2", MISSING_FILE, "64G"]);

    let mut failing = host(false);
    let status =
        create_with_qemu_img(&mut failing, &config, MISSING_FILE.to_string(), &arguments, &exe).unwrap();
    assert_eq!(status.state, DiskState::CreationFailed);
    assert_eq!(status.message, Some("boom".to_string()));
}

#[test]
fn missing_qemu_img_is_a_runtime_error() {
    let target = MISSING_FILE;
    let mut recording = host(true);
    let error = QemuDiskManager
        .create_disk(&disk_config(target), &empty_dirs(), &mut recording)
        .unwrap_err();
    assert_eq!(error.code, "runtime_error");
    assert!(recording.host().runs.borrow().is_empty());
}

#[test]
fn creation_result_follows_what_qemu_img_answered() {
    let config = disk_config("D:\\a.qcow2");
    let ready = creation_result(&config, "D:\\a.qcow2".to_string(), Ok((true, "noise".to_string())))
        .unwrap();
    assert_eq!(ready.state, DiskState::Ready);
    assert_eq!(ready.message, None);
    assert_eq!(ready.path, Some("D:\\a.qcow2".to_string()));
    assert_eq!(ready.vm_id, "vm-test");

    let failed = creation_result(&config, "D:\\a.qcow2".to_string(), Ok((false, "boom".to_string())))
        .unwrap();
    assert_eq!(failed.state, DiskState::CreationFailed);
    assert_eq!(failed.message, Some("boom".to_string()));
    assert_eq!(failed.format, Some("qcow2".to_string()));

    let error = creation_result(&config, "D:\\a.qcow2".to_string(), Err("denied".to_string()))
        .unwrap_err();
    assert_eq!(error.code, "runtime_error");
    assert_eq!(error.message, "qemu-img could not be started: denied");
}

#[test]
fn find_qemu_img_reports_missing_when_no_candidate_is_a_file() {
    let settings = AppSettings {
        qemu_executable_path: Some("  /nexoravm-missing-directory/qemu-system-x86_64 ".to_string()),
        ..AppSettings::default()
    };
    let error = find_qemu_img(&settings, &empty_dirs()).unwrap_err();
    assert_eq!(error.code, "runtime_error");
    assert_eq!(
        error.message,
        "qemu-img was not detected. Install QEMU or configure the QEMU executable path."
    );
    assert!(find_qemu_img(&AppSettings::default(), &SearchDirs { program_files_roots: Vec::new(), path_dirs: Vec::new() }).is_err());
}

#[test]
fn choose_qemu_img_tries_candidates_in_order() {
    let candidates = vec![EXISTING_DIR.to_string(), EXISTING_FILE.to_string(), "/bin/sh".to_string()];
    let (found, answers) = choose_qemu_img(&candidates);
    assert_eq!(found.unwrap(), EXISTING_FILE);
    assert_eq!(answers, vec![false, true]);
    let (none, answers) = choose_qemu_img(&Vec::new());
    assert_eq!(none.unwrap_err().code, "runtime_error");
    assert!(answers.is_empty());
}

#[test]
fn choice_follows_the_file_system_answers() {
    let candidates = vec!["a".to_string(), "b".to_string(), "c".to_string()];
    assert_eq!(choose_from_answers(&candidates, &vec![false, true, true]).unwrap(), "b");
    assert_eq!(choose_from_answers(&candidates, &vec![true]).unwrap(), "a");
    let error = choose_from_answers(&candidates, &vec![false, false, false]).unwrap_err();
    assert_eq!(error.code, "runtime_error");
    assert_eq!(error.message, "qemu-img was not detected. Install QEMU or configure the QEMU executable path.");
    assert!(choose_from_answers(&candidates, &Vec::new()).is_err());
}

#[test]
fn disk_action_follows_the_file_system_answers() {
    let config = disk_config("  D:\\vm.qcow2 ");
    match disk_action(&config, false, false) {
        DiskAction::Create(path, arguments) => {
            assert_eq!(path, "D:\\vm.qcow2");
            assert_eq!(arguments, vec!["create", "-f", "qcow2", "D:\\vm.qcow2", "64G"]);
        }
        _ => panic!("a missing image is created"),
    }
    match disk_action(&config, true, false) {
        DiskAction::UseExisting(status) => {
            assert_eq!(status.state, DiskState::Ready);
            assert_eq!(status.path, Some("D:\\vm.qcow2".to_string()));
            assert_eq!(status.message, Some("Disk image already exists; existing image is used.".to_string()));
        }
        _ => panic!("an existing image is used"),
    }
    match disk_action(&config, true, true) {
        DiskAction::Refuse(error) => {
            assert_eq!(error.field, Some("diskPath"));
            assert_eq!(error.message, "Disk path must be a regular file, not a directory.");
        }
        _ => panic!("a directory is refused"),
    }
    match disk_action(&disk_config(" "), false, false) {
        DiskAction::Refuse(error) => assert_eq!(error.message, "Disk path cannot be empty."),
        _ => panic!("a blank path is refused"),
    }
}

#[test]
fn disk_status_follows_the_file_system_answer() {
    let config = disk_config(" D:\\vm.qcow2");
    let ready = disk_status_from(&config, true).unwrap();
    assert_eq!(ready.state, DiskState::Ready);
    assert_eq!(ready.path, Some("D:\\vm.qcow2".to_string()));
    assert_eq!(ready.size_gi_b, Some(64));
    assert_eq!(ready.format, Some("qcow2".to_string()));
    assert_eq!(ready.message, None);
    assert_eq!(disk_status_from(&config, false).unwrap().state, DiskState::NotCreated);
    let mut no_path = config.clone();
    no_path.disk_path = None;
    assert_eq!(disk_status_from(&no_path, true).unwrap_err().field, Some("diskPath"));
}
