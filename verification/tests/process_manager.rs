use nexoravm::process_manager::{
    apply_poll, launch_decision, stop_decision, BoundedBuffer, OutputCapture, ManagedChild, ProcessLauncher, QemuProcessManager, QemuProcessOutput,
    QemuProcessState, QemuTerminationReason, MAX_OUTPUT_BYTES,
};
use nexoravm::qemu_command::{
    QemuAcceleration, QemuBootMode, QemuCommandSpec, QemuDisplayMode, QemuNetworkMode,
};

#[derive(Default)]
struct MockLauncher {
    launch_fails: bool,
    exits_immediately: bool,
    graceful_stop: bool,
    graceful_completes: bool,
    launches: std::rc::Rc<std::cell::Cell<u32>>,
}

struct MockChild {
    id: u32,
    alive: bool,
    graceful: bool,
    graceful_completes: bool,
    graceful_requested: bool,
}

impl ManagedChild for MockChild {
    fn process_id(&self) -> u32 {
        self.id
    }
    fn try_wait(&mut self) -> Result<Option<i32>, String> {
        Ok((!self.alive).then_some(0))
    }
    fn kill(&mut self) -> Result<(), String> {
        self.alive = false;
        Ok(())
    }
    fn request_graceful_stop(&mut self) -> Result<bool, String> {
        if self.graceful {
            self.graceful_requested = true;
            if self.graceful_completes {
                self.alive = false;
            }
        }
        Ok(self.graceful)
    }
    fn output(&self) -> QemuProcessOutput {
        QemuProcessOutput::default()
    }
    fn wait_for_exit(&mut self, _timeout_millis: u64) -> Option<i32> {
        self.try_wait().ok().flatten()
    }
}

impl ProcessLauncher for MockLauncher {
    type Child = MockChild;

    fn launch(&self, _spec: &QemuCommandSpec) -> Result<MockChild, String> {
        self.launches.set(self.launches.get() + 1);
        if self.launch_fails {
            return Err("mock launch failure".to_string());
        }
        Ok(MockChild {
            id: 42,
            alive: !self.exits_immediately,
            graceful: self.graceful_stop,
            graceful_completes: self.graceful_completes,
            graceful_requested: false,
        })
    }
}

fn spec() -> QemuCommandSpec {
    QemuCommandSpec {
        executable_path: "/proc/self/exe".to_string(),
        arguments: vec!["--help".to_string()],
        working_directory: None,
        vm_id: "vm-test".to_string(),
        diagnostics: Vec::new(),
        acceleration: QemuAcceleration::Tcg,
        display_mode: QemuDisplayMode::NoDisplay,
        network_mode: QemuNetworkMode::NoNetwork,
        boot_mode: QemuBootMode::Normal,
    }
}

#[test]
fn start_transitions_to_running_and_duplicate_start_is_rejected() {
    let launcher = MockLauncher::default();
    let launches = launcher.launches.clone();
    let mut manager = QemuProcessManager::with_launcher(launcher);
    let running = manager.start(spec()).unwrap();
    assert_eq!(running.state, QemuProcessState::Running);
    assert_eq!(running.process_id, Some(42));
    assert_eq!(launches.get(), 1);
    assert_eq!(manager.start(spec()).unwrap_err().code, "conflict");
    assert_eq!(launches.get(), 1);
}

#[test]
fn stop_transitions_to_stopped_and_cleans_handle() {
    let mut manager = QemuProcessManager::with_launcher(MockLauncher::default());
    manager.start(spec()).unwrap();
    let stopped = manager.stop("vm-test").unwrap();
    assert_eq!(stopped.state, QemuProcessState::Stopped);
    assert_eq!(manager.status("vm-test").unwrap().state, QemuProcessState::Stopped);
    assert!(manager.processes.iter().all(|entry| entry.child.is_none()));
}

#[test]
fn invalid_and_empty_specs_are_rejected_before_launch() {
    let mut manager = QemuProcessManager::with_launcher(MockLauncher::default());
    let mut invalid = spec();
    invalid.executable_path = String::new();
    assert_eq!(manager.start(invalid).unwrap_err().field, Some("executablePath"));
    let mut empty = spec();
    empty.arguments.clear();
    assert_eq!(manager.start(empty).unwrap_err().field, Some("arguments"));
}

#[test]
fn output_is_bounded() {
    let mut buffer = BoundedBuffer { bytes: Vec::new(), truncated: false };
    let data = vec![b'x'; MAX_OUTPUT_BYTES + 1];
    let remaining = MAX_OUTPUT_BYTES.saturating_sub(buffer.bytes.len());
    buffer.bytes.extend_from_slice(&data[..data.len().min(remaining)]);
    buffer.truncated = data.len() > remaining;
    assert_eq!(buffer.bytes.len(), MAX_OUTPUT_BYTES);
    assert!(buffer.truncated);
}

#[test]
fn append_keeps_output_within_the_bound() {
    let mut buffer = BoundedBuffer::new();
    buffer.append(&vec![b'a'; MAX_OUTPUT_BYTES - 2]);
    assert!(!buffer.truncated);
    buffer.append(b"bcd");
    assert_eq!(buffer.bytes.len(), MAX_OUTPUT_BYTES);
    assert_eq!(&buffer.bytes[MAX_OUTPUT_BYTES - 2..], b"bc");
    assert!(buffer.truncated);
    buffer.append(b"");
    assert!(buffer.truncated);
}

#[test]
fn failed_launch_returns_structured_error() {
    let mut manager = QemuProcessManager::with_launcher(MockLauncher {
        launch_fails: true,
        ..MockLauncher::default()
    });
    let error = manager.start(spec()).unwrap_err();
    assert_eq!(error.code, "runtime_error");
    assert_eq!(error.message, "QEMU could not be started: mock launch failure");
    assert_eq!(manager.status("vm-test").unwrap().state, QemuProcessState::NotStarted);
}

#[test]
fn immediate_exit_is_never_reported_as_running() {
    let mut manager = QemuProcessManager::with_launcher(MockLauncher {
        exits_immediately: true,
        ..MockLauncher::default()
    });
    let error = manager.start(spec()).unwrap_err();
    assert_eq!(error.code, "runtime_error");
    assert_eq!(manager.status("vm-test").unwrap().state, QemuProcessState::Failed);
}

#[test]
fn graceful_stop_uses_graceful_termination_reason() {
    let mut manager = QemuProcessManager::with_launcher(MockLauncher {
        graceful_stop: true,
        graceful_completes: true,
        ..MockLauncher::default()
    });
    manager.start(spec()).unwrap();
    let status = manager.stop("vm-test").unwrap();
    assert_eq!(status.state, QemuProcessState::Stopped);
    assert_eq!(status.termination_reason, Some(QemuTerminationReason::Graceful));
}

#[test]
fn graceful_stop_timeout_falls_back_to_forced_termination() {
    let mut manager = QemuProcessManager::with_launcher(MockLauncher {
        graceful_stop: true,
        graceful_completes: false,
        ..MockLauncher::default()
    });
    manager.start(spec()).unwrap();
    let status = manager.stop("vm-test").unwrap();
    assert_eq!(status.state, QemuProcessState::Stopped);
    assert_eq!(status.termination_reason, Some(QemuTerminationReason::Forced));
}

#[test]
fn unknown_vms_are_not_started_and_stop_reports_stopped() {
    let mut manager = QemuProcessManager::with_launcher(MockLauncher::default());
    let status = manager.status("vm-other").unwrap();
    assert_eq!(status.state, QemuProcessState::NotStarted);
    assert_eq!(status.vm_id, "vm-other");
    let status = manager.stop("vm-other").unwrap();
    assert_eq!(status.state, QemuProcessState::Stopped);
    assert!(manager.processes.is_empty());
}

#[test]
fn restart_after_stop_is_allowed() {
    let mut manager = QemuProcessManager::with_launcher(MockLauncher::default());
    manager.start(spec()).unwrap();
    manager.stop("vm-test").unwrap();
    let status = manager.start(spec()).unwrap();
    assert_eq!(status.state, QemuProcessState::Running);
    assert_eq!(status.process_id, Some(42));
    assert_eq!(manager.processes.len(), 1);
}

fn running_status() -> nexoravm::process_manager::QemuProcessStatus {
    nexoravm::process_manager::QemuProcessStatus {
        vm_id: "vm-test".to_string(),
        state: QemuProcessState::Running,
        process_id: Some(7),
        exit_code: None,
        termination_reason: None,
        output: QemuProcessOutput::default(),
    }
}

#[test]
fn polls_update_the_status() {
    let out = QemuProcessOutput { stdout: "hi".to_string(), stderr: String::new(), truncated: false };
    let still = apply_poll(running_status(), Some(None), out.clone());
    assert_eq!(still.state, QemuProcessState::Running);
    assert_eq!(still.output, out);
    let clean = apply_poll(running_status(), Some(Some(0)), out.clone());
    assert_eq!(clean.state, QemuProcessState::Stopped);
    assert_eq!(clean.exit_code, Some(0));
    assert_eq!(clean.termination_reason, Some(QemuTerminationReason::UnexpectedExit));
    let crashed = apply_poll(running_status(), Some(Some(3)), out.clone());
    assert_eq!(crashed.state, QemuProcessState::Failed);
    let unknown = apply_poll(running_status(), None, out);
    assert_eq!(unknown.state, QemuProcessState::Failed);
    assert_eq!(unknown.exit_code, None);
}

#[test]
fn launch_answers_decide_the_entry() {
    let id = "vm-test".to_string();
    let (entry, answer) = launch_decision(&id, Ok(42), Ok(None), QemuProcessOutput::default());
    let status = answer.unwrap();
    assert_eq!(status.state, QemuProcessState::Running);
    assert_eq!(status.process_id, Some(42));
    assert_eq!(entry, Some(status));

    let (entry, answer) = launch_decision(&id, Ok(42), Ok(Some(1)), QemuProcessOutput::default());
    assert_eq!(answer.unwrap_err().message, "QEMU exited before it could become running.");
    let entry = entry.unwrap();
    assert_eq!(entry.state, QemuProcessState::Failed);
    assert_eq!(entry.exit_code, Some(1));

    let (entry, answer) =
        launch_decision(&id, Err("denied".to_string()), Ok(None), QemuProcessOutput::default());
    assert_eq!(entry, None);
    assert_eq!(answer.unwrap_err().message, "QEMU could not be started: denied");

    let (entry, answer) =
        launch_decision(&id, Ok(42), Err("gone".to_string()), QemuProcessOutput::default());
    assert_eq!(entry, None);
    assert_eq!(answer.unwrap_err().message, "QEMU process status could not be checked: gone");
}

#[test]
fn stop_answers_decide_state_and_reason() {
    assert_eq!(
        stop_decision(true, true, false, false),
        (QemuProcessState::Stopped, QemuTerminationReason::Graceful)
    );
    assert_eq!(
        stop_decision(true, false, true, true),
        (QemuProcessState::Stopped, QemuTerminationReason::Forced)
    );
    assert_eq!(
        stop_decision(false, false, true, true),
        (QemuProcessState::Stopped, QemuTerminationReason::Forced)
    );
    assert_eq!(
        stop_decision(false, false, false, false),
        (QemuProcessState::TimedOut, QemuTerminationReason::TimedOut)
    );
    assert_eq!(
        stop_decision(false, false, true, false),
        (QemuProcessState::TimedOut, QemuTerminationReason::TimedOut)
    );
}

#[test]
fn repeated_stop_and_status_keep_the_stop_result() {
    let mut manager = QemuProcessManager::with_launcher(MockLauncher::default());
    manager.start(spec()).unwrap();
    let first = manager.stop("vm-test").unwrap();
    assert_eq!(first.termination_reason, Some(QemuTerminationReason::Forced));
    assert_eq!(manager.stop("vm-test").unwrap(), first);
    assert_eq!(manager.status("vm-test").unwrap(), first);
}

#[test]
fn a_long_stream_keeps_its_first_bytes() {
    let mut buffer = BoundedBuffer::new();
    let mut stream: Vec<u8> = Vec::new();
    for round in 0..40u8 {
        let chunk = vec![round; 4096];
        buffer.append(&chunk);
        stream.extend_from_slice(&chunk);
        let cap = stream.len().min(MAX_OUTPUT_BYTES);
        assert_eq!(buffer.bytes, stream[..cap].to_vec());
        assert_eq!(buffer.truncated, stream.len() > MAX_OUTPUT_BYTES);
    }
}

#[test]
fn capture_keeps_the_first_64_kib_of_the_stream() {
    let mut capture = OutputCapture::new();
    assert!(capture.bytes().is_empty());
    assert!(!capture.truncated());
    for _ in 0..16 {
        capture.append(&vec![b'a'; 4096]);
    }
    assert_eq!(capture.bytes().len(), MAX_OUTPUT_BYTES);
    assert!(!capture.truncated());
    capture.append(b"z");
    assert_eq!(capture.bytes().len(), MAX_OUTPUT_BYTES);
    assert!(capture.bytes().iter().all(|b| *b == b'a'));
    assert!(capture.truncated());
}

#[test]
fn append_to_an_overfull_buffer_keeps_it_and_marks_truncation() {
    let mut buffer = BoundedBuffer { bytes: vec![b'x'; MAX_OUTPUT_BYTES + 3], truncated: false };
    buffer.append(b"more");
    assert_eq!(buffer.bytes.len(), MAX_OUTPUT_BYTES + 3);
    assert!(buffer.truncated);
}

#[test]
fn start_follows_the_file_system_answer() {
    let launcher = MockLauncher::default();
    let launches = launcher.launches.clone();
    let mut manager = QemuProcessManager::with_launcher(launcher);
    let error = manager.start_with_file_answer(spec(), false).unwrap_err();
    assert_eq!(error.field, Some("executablePath"));
    assert_eq!(launches.get(), 0);
    let mut elsewhere = spec();
    elsewhere.executable_path = "/nexoravm-missing/qemu".to_string();
    let running = manager.start_with_file_answer(elsewhere, true).unwrap();
    assert_eq!(running.state, QemuProcessState::Running);
    assert_eq!(launches.get(), 1);
}
