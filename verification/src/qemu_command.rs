//! Typed construction and validation of the QEMU command line of a virtual machine.
use vstd::prelude::*;

use crate::files::{
    answered_exists, answered_is_dir, answered_is_file, ask_exists, ask_is_dir, ask_is_file,
    executable_answer,
};
use crate::runtime_adapter::{copy_diagnostics, CapabilityState, RuntimeDiagnostic, RuntimeStatus};
use crate::settings::{
    outcome, plain_error, validation_error, windows_paths, CommandError, CommandErrorView,
    DisplayMode,
};
use crate::text::{
    in_class, contains_char_in, decimal, decimal_string, has_char_in, owned, same_text, trim, trimmed,
    CharClass,
};
use crate::vm_config::{configuration_check, NetworkMode, VmConfiguration};

verus! {

/// The accelerator QEMU is asked to use.
#[derive(Clone, Copy, Debug, PartialEq, Eq, Structural)]
pub enum QemuAcceleration {
    Whpx,
    Tcg,
}

/// The QEMU display backend.
#[derive(Clone, Copy, Debug, PartialEq, Eq, Structural)]
pub enum QemuDisplayMode {
    Sdl,
    GtkFullscreen,
    NoDisplay,
}

/// The QEMU network backend.
#[derive(Clone, Copy, Debug, PartialEq, Eq, Structural)]
pub enum QemuNetworkMode {
    NoNetwork,
    User,
}

/// Whether the guest boots from the ISO (to install) or from its disk.
#[derive(Clone, Copy, Debug, PartialEq, Eq, Structural)]
pub enum QemuBootMode {
    Install,
    Normal,
}

/// An executable and its arguments, kept apart: never a shell command line.
#[derive(Clone, Debug, PartialEq)]
pub struct QemuCommandSpec {
    pub executable_path: String,
    pub arguments: Vec<String>,
    pub working_directory: Option<String>,
    pub vm_id: String,
    pub diagnostics: Vec<RuntimeDiagnostic>,
    pub acceleration: QemuAcceleration,
    pub display_mode: QemuDisplayMode,
    pub network_mode: QemuNetworkMode,
    pub boot_mode: QemuBootMode,
}

/// The texts of a list of strings.
pub open spec fn texts(v: Seq<String>) -> Seq<Seq<char>> {
    v.map_values(|s: String| s@)
}

// ---------------------------------------------------------------------------------------
// Files on disk. What these answer depends on the file system at the time of the call.
// ---------------------------------------------------------------------------------------
/// `std::path::Path::is_file`: nothing is promised of the answer, which depends on the
/// file system at the moment of the call.
#[verifier::external_body]
pub(crate) fn path_is_file(path: &str) -> bool {
    std::path::Path::new(path).is_file()
}

/// `std::path::Path::exists`: nothing is promised of the answer, which depends on the
/// file system at the moment of the call.
#[verifier::external_body]
pub(crate) fn path_exists(path: &str) -> bool {
    std::path::Path::new(path).exists()
}

/// `std::path::Path::is_dir`: nothing is promised of the answer, which depends on the
/// file system at the moment of the call.
#[verifier::external_body]
pub(crate) fn path_is_dir(path: &str) -> bool {
    std::path::Path::new(path).is_dir()
}

// ---------------------------------------------------------------------------------------
// Rules
// ---------------------------------------------------------------------------------------
/// Program names and the shell flag that a QEMU argument may never be.
pub open spec fn is_shell_word(a: Seq<char>) -> bool {
    a == "cmd.exe"@ || a == "powershell"@ || a == "pwsh"@ || a == "sh"@ || a == "-c"@
}

/// An argument that the launcher refuses.
pub open spec fn is_rejected_argument(a: Seq<char>) -> bool {
    has_char_in(a, CharClass::Control) || is_shell_word(a)
}

pub open spec fn executable_check(path: Seq<char>, is_file: bool) -> Result<(), CommandErrorView> {
    if path.len() == 0 || !is_file {
        Err(validation_error("executablePath"@, "Executable path must refer to a regular file."@))
    } else {
        Ok(())
    }
}

/// What [`check_qemu_command_spec`] answers, where `executable_is_file` is whether the
/// executable path names a regular file.
pub open spec fn command_spec_check(spec: QemuCommandSpec, executable_is_file: bool) -> Result<
    (),
    CommandErrorView,
> {
    if executable_check(spec.executable_path@, executable_is_file) is Err {
        executable_check(spec.executable_path@, executable_is_file)
    } else if spec.arguments@.len() == 0 {
        Err(validation_error("arguments"@, "QEMU command arguments cannot be empty."@))
    } else if trimmed(spec.vm_id@).len() == 0 {
        Err(validation_error("vmId"@, "VM id is required."@))
    } else if exists|i: int|
        0 <= i < spec.arguments@.len() && #[trigger] is_rejected_argument(
            spec.arguments@[i]@,
        ) {
        Err(
            validation_error(
                "arguments"@,
                "QEMU arguments contain unsupported process or control input."@,
            ),
        )
    } else {
        Ok(())
    }
}

/// What [`check_iso_path_for_launch`] answers, given what the file system said of the
/// trimmed path: whether it exists, is a directory, is a regular file.
pub open spec fn iso_launch_check(iso_path: Seq<char>, exists: bool, is_dir: bool, is_file: bool) -> Result<
    (),
    CommandErrorView,
> {
    if trimmed(iso_path).len() == 0 {
        Err(
            validation_error(
                "isoPath"@,
                "ISO path must be non-empty when launching a VM that requires an ISO."@,
            ),
        )
    } else if !exists {
        Err(validation_error("isoPath"@, "ISO path does not exist."@))
    } else if is_dir {
        Err(validation_error("isoPath"@, "ISO path must be a regular file, not a directory."@))
    } else if !is_file {
        Err(validation_error("isoPath"@, "ISO path must refer to a regular file."@))
    } else {
        Ok(())
    }
}

/// The rule for a path placed on the command line.
pub open spec fn command_path_check(field: Seq<char>, value: Seq<char>, reject_comma: bool) -> Result<
    (),
    CommandErrorView,
> {
    let t = trimmed(value);
    if t.len() == 0 {
        Err(validation_error(field, "Path cannot be empty."@))
    } else if has_char_in(t, CharClass::Control) {
        Err(validation_error(field, "Path contains invalid control characters."@))
    } else if reject_comma && has_char_in(t, CharClass::Comma) {
        Err(validation_error(field, "Disk paths cannot contain commas in the command preview."@))
    } else if has_char_in(t, CharClass::WindowsReserved) {
        Err(validation_error(field, "Path contains characters that are not valid on Windows."@))
    } else {
        Ok(())
    }
}

/// A VM name that is not blank and has no control or shell characters.
pub open spec fn is_safe_name(name: Seq<char>) -> bool {
    trimmed(name).len() > 0 && !has_char_in(name, CharClass::ShellMeta)
}

/// What [`validate_command_inputs`] answers, given whether the disk path is a regular
/// file and whether the detected executable is one.
pub open spec fn command_inputs_check(
    config: VmConfiguration,
    status: RuntimeStatus,
    boot_mode: QemuBootMode,
    disk_is_file: bool,
    executable_is_file: bool,
    windows: bool,
) -> Result<(), CommandErrorView> {
    let iso = trimmed(config.iso_path@);
    if configuration_check(config, windows) is Err {
        configuration_check(config, windows)
    } else if !is_safe_name(config.name@) {
        Err(validation_error("name"@, "VM name contains unsupported shell-like characters."@))
    } else if config.disk_path is Some && command_path_check(
        "diskPath"@,
        config.disk_path->0@,
        true,
    ) is Err {
        command_path_check("diskPath"@, config.disk_path->0@, true)
    } else if iso.len() > 0 && command_path_check("isoPath"@, config.iso_path@, false) is Err {
        command_path_check("isoPath"@, config.iso_path@, false)
    } else if boot_mode == QemuBootMode::Install && iso.len() == 0 {
        Err(validation_error("bootMode"@, "Install mode requires an ISO path."@))
    } else if !(config.disk_path is Some && disk_is_file) {
        Err(validation_error("bootMode"@, missing_disk_message(boot_mode)))
    } else if status.availability != CapabilityState::Available {
        Err(
            plain_error(
                "runtime_error"@,
                "QEMU must be detected and version-validated before building a command preview."@,
            ),
        )
    } else if status.detected_qemu_path is None {
        Err(plain_error("runtime_error"@, "No detected QEMU executable is available."@))
    } else {
        executable_check(status.detected_qemu_path->0@, executable_is_file)
    }
}

/// Why a boot mode cannot start without an existing persistent disk.
pub open spec fn missing_disk_message(boot_mode: QemuBootMode) -> Seq<char> {
    match boot_mode {
        QemuBootMode::Install => "Install mode requires an existing persistent disk path."@,
        QemuBootMode::Normal => "Normal boot requires an existing persistent disk path."@,
    }
}

pub open spec fn acceleration_for(status: RuntimeStatus) -> QemuAcceleration {
    if status.whpx.state == CapabilityState::Available {
        QemuAcceleration::Whpx
    } else {
        QemuAcceleration::Tcg
    }
}

pub open spec fn display_for(mode: DisplayMode) -> QemuDisplayMode {
    match mode {
        DisplayMode::Windowed => QemuDisplayMode::Sdl,
        DisplayMode::Fullscreen => QemuDisplayMode::GtkFullscreen,
        DisplayMode::Headless => QemuDisplayMode::NoDisplay,
    }
}

/// The QEMU network backend of a network mode; bridged networking has none.
pub open spec fn network_for(mode: NetworkMode) -> Option<QemuNetworkMode> {
    match mode {
        NetworkMode::Disabled => Some(QemuNetworkMode::NoNetwork),
        NetworkMode::User => Some(QemuNetworkMode::User),
        NetworkMode::Bridged => None,
    }
}

pub open spec fn acceleration_text(a: QemuAcceleration) -> Seq<char> {
    match a {
        QemuAcceleration::Whpx => "whpx"@,
        QemuAcceleration::Tcg => "tcg"@,
    }
}

pub open spec fn display_text(m: QemuDisplayMode) -> Seq<char> {
    match m {
        QemuDisplayMode::Sdl => "sdl"@,
        QemuDisplayMode::GtkFullscreen => "gtk,full-screen=on"@,
        QemuDisplayMode::NoDisplay => "none"@,
    }
}

pub open spec fn network_text(m: QemuNetworkMode) -> Seq<char> {
    match m {
        QemuNetworkMode::NoNetwork => "none"@,
        QemuNetworkMode::User => "user"@,
    }
}

pub open spec fn boot_order_text(b: QemuBootMode) -> Seq<char> {
    match b {
        QemuBootMode::Install => "order=d"@,
        QemuBootMode::Normal => "order=c"@,
    }
}

/// The fixed part of the command line, in order.
pub open spec fn base_arguments(
    config: VmConfiguration,
    status: RuntimeStatus,
    boot_mode: QemuBootMode,
    network: QemuNetworkMode,
) -> Seq<Seq<char>> {
    seq![
        "-name"@,
        trimmed(config.name@),
        "-machine"@,
        "q35"@,
        "-smp"@,
        decimal(config.cpu_count as nat),
        "-m"@,
        decimal(config.memory_mi_b as nat),
        "-accel"@,
        acceleration_text(acceleration_for(status)),
        "-display"@,
        display_text(display_for(config.display_mode)),
        "-nic"@,
        network_text(network),
        "-boot"@,
        boot_order_text(boot_mode),
    ]
}

/// The drive argument of the persistent disk, if there is one.
pub open spec fn drive_arguments(config: VmConfiguration) -> Seq<Seq<char>> {
    match config.disk_path {
        Some(d) => seq!["-drive"@, "file="@ + d@ + ",format=qcow2"@],
        None => seq![],
    }
}

/// The ISO as removable media, in install mode only.
pub open spec fn cdrom_arguments(config: VmConfiguration, boot_mode: QemuBootMode) -> Seq<
    Seq<char>,
> {
    if boot_mode == QemuBootMode::Install && trimmed(config.iso_path@).len() > 0 {
        seq!["-cdrom"@, trimmed(config.iso_path@)]
    } else {
        seq![]
    }
}

/// The whole command line.
pub open spec fn command_arguments(
    config: VmConfiguration,
    status: RuntimeStatus,
    boot_mode: QemuBootMode,
    network: QemuNetworkMode,
) -> Seq<Seq<char>> {
    base_arguments(config, status, boot_mode, network) + drive_arguments(config) + cdrom_arguments(
        config,
        boot_mode,
    )
}

/// What building the command answers, beyond the input checks.
pub open spec fn command_build_check(
    config: VmConfiguration,
    status: RuntimeStatus,
    boot_mode: QemuBootMode,
    disk_is_file: bool,
    executable_is_file: bool,
    windows: bool,
) -> Result<(), CommandErrorView> {
    let inputs = command_inputs_check(config, status, boot_mode, disk_is_file, executable_is_file, windows);
    if inputs is Err {
        inputs
    } else if network_for(config.network_mode) is None {
        Err(
            plain_error(
                "unsupported"@,
                "Bridged networking is not supported by the command preview."@,
            ),
        )
    } else {
        Ok(())
    }
}

/// `r` is the command built from these inputs, where `disk_is_file` and
/// `executable_is_file` are what the file system said of the disk and executable paths.
pub open spec fn built_from(
    r: Result<QemuCommandSpec, CommandError>,
    config: VmConfiguration,
    status: RuntimeStatus,
    boot_mode: QemuBootMode,
    disk_is_file: bool,
    executable_is_file: bool,
    windows: bool,
) -> bool {
    let check = command_build_check(config, status, boot_mode, disk_is_file, executable_is_file, windows);
    match r {
        Err(e) => check == Err::<(), CommandErrorView>(e@),
        Ok(spec) => {
            &&& check is Ok
            &&& spec.executable_path@ == status.detected_qemu_path->0@
            &&& texts(spec.arguments@) == command_arguments(
                config,
                status,
                boot_mode,
                network_for(config.network_mode)->0,
            )
            &&& spec.working_directory is None
            &&& spec.vm_id@ == config.id@
            &&& spec.diagnostics@ == status.diagnostics@
            &&& spec.acceleration == acceleration_for(status)
            &&& spec.display_mode == display_for(config.display_mode)
            &&& spec.network_mode == network_for(config.network_mode)->0
            &&& spec.boot_mode == boot_mode
        },
    }
}

// ---------------------------------------------------------------------------------------
// Checks
// ---------------------------------------------------------------------------------------
/// Checks a command before launch, given whether its executable is a regular file.
pub fn check_qemu_command_spec(spec: &QemuCommandSpec, executable_is_file: bool) -> (r: Result<
    (),
    CommandError,
>)
    ensures
        outcome(r) == command_spec_check(*spec, executable_is_file),
{
    if spec.executable_path.as_str().unicode_len() == 0 || !executable_is_file {
        return Err(
            CommandError::validation(
                "executablePath",
                "Executable path must refer to a regular file.",
            ),
        );
    }
    if spec.arguments.len() == 0 {
        return Err(CommandError::validation("arguments", "QEMU command arguments cannot be empty."));
    }
    if trim(spec.vm_id.as_str()).unicode_len() == 0 {
        return Err(CommandError::validation("vmId", "VM id is required."));
    }
    let mut i: usize = 0;
    while i < spec.arguments.len()
        invariant
            i <= spec.arguments@.len(),
            executable_check(spec.executable_path@, executable_is_file) is Ok,
            trimmed(spec.vm_id@).len() != 0,
            forall|k: int| 0 <= k < i ==> !#[trigger] is_rejected_argument(spec.arguments@[k]@),
        decreases spec.arguments.len() - i,
    {
        if is_rejected(spec.arguments[i].as_str()) {
            assert(is_rejected_argument(spec.arguments@[i as int]@));
            return Err(
                CommandError::validation(
                    "arguments",
                    "QEMU arguments contain unsupported process or control input.",
                ),
            );
        }
        i = i + 1;
    }
    Ok(())
}

fn is_rejected(a: &str) -> (b: bool)
    ensures
        b == is_rejected_argument(a@),
{
    contains_char_in(a, CharClass::Control) || same_text(a, "cmd.exe") || same_text(
        a,
        "powershell",
    ) || same_text(a, "pwsh") || same_text(a, "sh") || same_text(a, "-c")
}

/// Checks a command before launch: a regular executable file, at least one argument, a
/// VM id, and no argument that is a shell or carries control characters.
pub fn validate_qemu_command_spec(spec: &QemuCommandSpec) -> (r: Result<(), CommandError>)
    ensures
        outcome(r) == command_spec_check(*spec, true) || outcome(r) == command_spec_check(
            *spec,
            false,
        ),
        spec.executable_path@.len() == 0 ==> outcome(r) == command_spec_check(*spec, false),
        exists|is_file: bool|
            #[trigger] executable_answer(spec.executable_path@, is_file) && outcome(r)
                == command_spec_check(*spec, is_file),
{
    let is_file = spec.executable_path.as_str().unicode_len() != 0 && ask_is_file(
        spec.executable_path.as_str(),
    );
    assert(executable_answer(spec.executable_path@, is_file));
    check_qemu_command_spec(spec, is_file)
}

/// What the file system said of an ISO path `path` (already trimmed): whether something
/// exists there, and only then whether it is a directory, and only if it is not whether
/// it is a regular file; questions not asked count as `false`.
pub open spec fn iso_answers(path: Seq<char>, exists: bool, is_dir: bool, is_file: bool) -> bool {
    &&& answered_exists(path, exists)
    &&& if exists {
        answered_is_dir(path, is_dir)
    } else {
        !is_dir
    }
    &&& if exists && !is_dir {
        answered_is_file(path, is_file)
    } else {
        !is_file
    }
}

/// Checks the ISO path of a launch, given what the file system said of the trimmed path.
pub fn check_iso_path_for_launch(iso_path: &str, exists: bool, is_dir: bool, is_file: bool) -> (r:
    Result<(), CommandError>)
    ensures
        outcome(r) == iso_launch_check(iso_path@, exists, is_dir, is_file),
{
    let path = trim(iso_path);
    if path.unicode_len() == 0 {
        return Err(
            CommandError::validation(
                "isoPath",
                "ISO path must be non-empty when launching a VM that requires an ISO.",
            ),
        );
    }
    if !exists {
        return Err(CommandError::validation("isoPath", "ISO path does not exist."));
    }
    if is_dir {
        return Err(
            CommandError::validation("isoPath", "ISO path must be a regular file, not a directory."),
        );
    }
    if !is_file {
        return Err(CommandError::validation("isoPath", "ISO path must refer to a regular file."));
    }
    Ok(())
}

/// Checks that the ISO of a launch is given and is a regular file on disk.
pub fn validate_iso_path_for_launch(iso_path: &str) -> (r: Result<(), CommandError>)
    ensures
        exists|e: bool, d: bool, f: bool|
            outcome(r) == #[trigger] iso_launch_check(iso_path@, e, d, f),
        trimmed(iso_path@).len() == 0 ==> outcome(r) == iso_launch_check(
            iso_path@,
            false,
            false,
            false,
        ),
        trimmed(iso_path@).len() > 0 ==> exists|e: bool, d: bool, f: bool|
            #[trigger] iso_answers(trimmed(iso_path@), e, d, f) && outcome(r) == iso_launch_check(
                iso_path@,
                e,
                d,
                f,
            ),
{
    let path = trim(iso_path);
    if path.unicode_len() == 0 {
        return check_iso_path_for_launch(iso_path, false, false, false);
    }
    let exists = ask_exists(path);
    let is_dir = exists && ask_is_dir(path);
    let is_file = exists && !is_dir && ask_is_file(path);
    assert(iso_answers(trimmed(iso_path@), exists, is_dir, is_file));
    check_iso_path_for_launch(iso_path, exists, is_dir, is_file)
}

fn validate_path(field: &'static str, value: &str, reject_qemu_option_separator: bool) -> (r:
    Result<(), CommandError>)
    ensures
        outcome(r) == command_path_check(field@, value@, reject_qemu_option_separator),
{
    let path = trim(value);
    if path.unicode_len() == 0 {
        return Err(CommandError::validation(field, "Path cannot be empty."));
    }
    if contains_char_in(path, CharClass::Control) {
        return Err(CommandError::validation(field, "Path contains invalid control characters."));
    }
    if reject_qemu_option_separator && contains_char_in(path, CharClass::Comma) {
        return Err(
            CommandError::validation(
                field,
                "Disk paths cannot contain commas in the command preview.",
            ),
        );
    }
    if contains_char_in(path, CharClass::WindowsReserved) {
        return Err(
            CommandError::validation(
                field,
                "Path contains characters that are not valid on Windows.",
            ),
        );
    }
    Ok(())
}

fn validate_executable_path(path: &str, is_file: bool) -> (r: Result<(), CommandError>)
    ensures
        outcome(r) == executable_check(path@, is_file),
{
    if path.unicode_len() == 0 || !is_file {
        return Err(
            CommandError::validation(
                "executablePath",
                "Executable path must refer to a regular file.",
            ),
        );
    }
    Ok(())
}

fn is_safe_qemu_name(name: &str) -> (b: bool)
    ensures
        b == is_safe_name(name@),
{
    trim(name).unicode_len() != 0 && !contains_char_in(name, CharClass::ShellMeta)
}

fn validate_command_inputs(
    config: &VmConfiguration,
    status: &RuntimeStatus,
    boot_mode: QemuBootMode,
    disk_is_file: bool,
    executable_is_file: bool,
    windows: bool,
) -> (r: Result<(), CommandError>)
    ensures
        outcome(r) == command_inputs_check(
            *config,
            *status,
            boot_mode,
            disk_is_file,
            executable_is_file,
            windows,
        ),
{
    config.validate_on(windows)?;
    if !is_safe_qemu_name(config.name.as_str()) {
        return Err(
            CommandError::validation("name", "VM name contains unsupported shell-like characters."),
        );
    }
    match &config.disk_path {
        Some(path) => {
            validate_path("diskPath", path.as_str(), true)?;
        },
        None => {},
    }
    let iso_given = trim(config.iso_path.as_str()).unicode_len() != 0;
    if iso_given {
        validate_path("isoPath", config.iso_path.as_str(), false)?;
    }
    if matches!(boot_mode, QemuBootMode::Install) && !iso_given {
        return Err(CommandError::validation("bootMode", "Install mode requires an ISO path."));
    }
    let disk_ready = config.disk_path.is_some() && disk_is_file;
    if !disk_ready {
        let message = match boot_mode {
            QemuBootMode::Install => "Install mode requires an existing persistent disk path.",
            QemuBootMode::Normal => "Normal boot requires an existing persistent disk path.",
        };
        return Err(CommandError::validation("bootMode", message));
    }
    if !matches!(status.availability, CapabilityState::Available) {
        return Err(
            CommandError::runtime(
                "QEMU must be detected and version-validated before building a command preview.",
            ),
        );
    }
    match &status.detected_qemu_path {
        Some(path) => validate_executable_path(path.as_str(), executable_is_file),
        None => Err(CommandError::runtime("No detected QEMU executable is available.")),
    }
}

fn select_acceleration(status: &RuntimeStatus) -> (a: QemuAcceleration)
    ensures
        a == acceleration_for(*status),
{
    if matches!(status.whpx.state, CapabilityState::Available) {
        QemuAcceleration::Whpx
    } else {
        QemuAcceleration::Tcg
    }
}

fn map_display_mode(mode: DisplayMode) -> (r: Result<QemuDisplayMode, CommandError>)
    ensures
        r == Ok::<QemuDisplayMode, CommandError>(display_for(mode)),
{
    match mode {
        DisplayMode::Windowed => Ok(QemuDisplayMode::Sdl),
        DisplayMode::Fullscreen => Ok(QemuDisplayMode::GtkFullscreen),
        DisplayMode::Headless => Ok(QemuDisplayMode::NoDisplay),
    }
}

fn map_network_mode(mode: NetworkMode) -> (r: Result<QemuNetworkMode, CommandError>)
    ensures
        match r {
            Ok(m) => network_for(mode) == Some(m),
            Err(e) => network_for(mode) is None && e@ == plain_error(
                "unsupported"@,
                "Bridged networking is not supported by the command preview."@,
            ),
        },
{
    match mode {
        NetworkMode::Disabled => Ok(QemuNetworkMode::NoNetwork),
        NetworkMode::User => Ok(QemuNetworkMode::User),
        NetworkMode::Bridged => Err(
            CommandError::unsupported("Bridged networking is not supported by the command preview."),
        ),
    }
}

fn acceleration_argument(acceleration: QemuAcceleration) -> (s: &'static str)
    ensures
        s@ == acceleration_text(acceleration),
{
    match acceleration {
        QemuAcceleration::Whpx => "whpx",
        QemuAcceleration::Tcg => "tcg",
    }
}

fn display_argument(mode: QemuDisplayMode) -> (s: &'static str)
    ensures
        s@ == display_text(mode),
{
    match mode {
        QemuDisplayMode::Sdl => "sdl",
        QemuDisplayMode::GtkFullscreen => "gtk,full-screen=on",
        QemuDisplayMode::NoDisplay => "none",
    }
}

fn network_argument(mode: QemuNetworkMode) -> (s: &'static str)
    ensures
        s@ == network_text(mode),
{
    match mode {
        QemuNetworkMode::NoNetwork => "none",
        QemuNetworkMode::User => "user",
    }
}

fn push_text(args: &mut Vec<String>, s: String)
    ensures
        texts(final(args)@) == texts(old(args)@).push(s@),
{
    args.push(s);
    assert(texts(args@) =~= texts(old(args)@).push(s@));
}

// ---------------------------------------------------------------------------------------
// Construction
// ---------------------------------------------------------------------------------------
/// Builds the command of a VM, given whether its disk path is a regular file and
/// whether the detected executable is one.
pub fn build_qemu_command_spec_from(
    config: &VmConfiguration,
    status: &RuntimeStatus,
    boot_mode: QemuBootMode,
    disk_is_file: bool,
    executable_is_file: bool,
    windows: bool,
) -> (r: Result<QemuCommandSpec, CommandError>)
    ensures
        built_from(r, *config, *status, boot_mode, disk_is_file, executable_is_file, windows),
{
    validate_command_inputs(config, status, boot_mode, disk_is_file, executable_is_file, windows)?;
    let executable_path = match &status.detected_qemu_path {
        Some(p) => p.clone(),
        None => {
            return Err(CommandError::runtime("No detected QEMU executable is available."));
        },
    };
    let acceleration = select_acceleration(status);
    let display_mode = map_display_mode(config.display_mode)?;
    let network_mode = map_network_mode(config.network_mode)?;
    let boot_argument = match boot_mode {
        QemuBootMode::Install => ("-boot", "order=d"),
        QemuBootMode::Normal => ("-boot", "order=c"),
    };
    let mut arguments: Vec<String> = Vec::new();
    push_text(&mut arguments, owned("-name"));
    push_text(&mut arguments, owned(trim(config.name.as_str())));
    push_text(&mut arguments, owned("-machine"));
    push_text(&mut arguments, owned("q35"));
    push_text(&mut arguments, owned("-smp"));
    push_text(&mut arguments, decimal_string(config.cpu_count as u64));
    push_text(&mut arguments, owned("-m"));
    push_text(&mut arguments, decimal_string(config.memory_mi_b as u64));
    push_text(&mut arguments, owned("-accel"));
    push_text(&mut arguments, owned(acceleration_argument(acceleration)));
    push_text(&mut arguments, owned("-display"));
    push_text(&mut arguments, owned(display_argument(display_mode)));
    push_text(&mut arguments, owned("-nic"));
    push_text(&mut arguments, owned(network_argument(network_mode)));
    push_text(&mut arguments, owned(boot_argument.0));
    push_text(&mut arguments, owned(boot_argument.1));
    let ghost base = texts(arguments@);
    assert(base =~= base_arguments(*config, *status, boot_mode, network_mode));
    match &config.disk_path {
        Some(disk_path) => {
            push_text(&mut arguments, owned("-drive"));
            let mut drive = owned("file=");
            drive.append(disk_path.as_str());
            drive.append(",format=qcow2");
            push_text(&mut arguments, drive);
        },
        None => {},
    }
    assert(texts(arguments@) =~= base + drive_arguments(*config));
    let ghost with_drive = texts(arguments@);
    if matches!(boot_mode, QemuBootMode::Install) && trim(config.iso_path.as_str()).unicode_len()
        != 0 {
        push_text(&mut arguments, owned("-cdrom"));
        push_text(&mut arguments, owned(trim(config.iso_path.as_str())));
    }
    assert(texts(arguments@) =~= with_drive + cdrom_arguments(*config, boot_mode));
    Ok(
        QemuCommandSpec {
            executable_path,
            arguments,
            working_directory: None,
            vm_id: config.id.clone(),
            diagnostics: copy_diagnostics(&status.diagnostics),
            acceleration,
            display_mode,
            network_mode,
            boot_mode,
        },
    )
}

/// Builds the command of a VM for a boot mode, after checking the configuration, the
/// paths, the boot mode's requirements and the detected runtime. Both boot modes need an
/// existing persistent disk, and install mode an ISO path as well. The disk path and the
/// detected executable are looked up on disk.
pub fn build_qemu_command_spec(
    config: &VmConfiguration,
    status: &RuntimeStatus,
    boot_mode: &QemuBootMode,
) -> (r: Result<QemuCommandSpec, CommandError>)
    ensures
        exists|disk_is_file: bool, executable_is_file: bool, windows: bool|
            #[trigger] built_from(
                r,
                *config,
                *status,
                *boot_mode,
                disk_is_file,
                executable_is_file,
                windows,
            ),
        exists|disk_is_file: bool, executable_is_file: bool, windows: bool|
            {
                &&& match config.disk_path {
                    Some(p) => answered_is_file(p@, disk_is_file),
                    None => !disk_is_file,
                }
                &&& match status.detected_qemu_path {
                    Some(p) => executable_answer(p@, executable_is_file),
                    None => !executable_is_file,
                }
                &&& #[trigger] built_from(
                    r,
                    *config,
                    *status,
                    *boot_mode,
                    disk_is_file,
                    executable_is_file,
                    windows,
                )
            },
{
    let disk_is_file = match &config.disk_path {
        Some(p) => ask_is_file(p.as_str()),
        None => false,
    };
    let executable_is_file = match &status.detected_qemu_path {
        Some(p) => p.as_str().unicode_len() != 0 && ask_is_file(p.as_str()),
        None => false,
    };
    assert(match status.detected_qemu_path {
        Some(p) => executable_answer(p@, executable_is_file),
        None => !executable_is_file,
    });
    build_qemu_command_spec_from(
        config,
        status,
        *boot_mode,
        disk_is_file,
        executable_is_file,
        windows_paths(),
    )
}

// ---------------------------------------------------------------------------------------
// Laws
// ---------------------------------------------------------------------------------------
/// A command passes the launch check only when the file system answered that its
/// executable is a regular file; when it answered that it is not, or the path is empty,
/// the check fails on `executablePath`.
pub proof fn lemma_launch_check_needs_regular_file(spec: QemuCommandSpec, is_file: bool)
    requires
        executable_answer(spec.executable_path@, is_file),
    ensures
        command_spec_check(spec, is_file) is Ok ==> spec.executable_path@.len() > 0
            && answered_is_file(spec.executable_path@, true),
        !is_file ==> command_spec_check(spec, is_file) == Err::<(), CommandErrorView>(
            validation_error("executablePath"@, "Executable path must refer to a regular file."@),
        ),
{
}

/// The `-accel` argument of a built command names the accelerator the command selected:
/// `whpx` exactly when the runtime reports WHPX available, `tcg` otherwise, so the
/// launched QEMU runs with the accelerator the command reports.
pub proof fn lemma_accel_argument_names_accelerator(
    r: Result<QemuCommandSpec, CommandError>,
    config: VmConfiguration,
    status: RuntimeStatus,
    boot_mode: QemuBootMode,
    disk_is_file: bool,
    executable_is_file: bool,
    windows: bool,
)
    requires
        built_from(r, config, status, boot_mode, disk_is_file, executable_is_file, windows),
        r is Ok,
    ensures
        ({
            let spec = r->Ok_0;
            let args = texts(spec.arguments@);
            &&& args.len() >= 10
            &&& args[8] == "-accel"@
            &&& (spec.acceleration == QemuAcceleration::Whpx <==> status.whpx.state
                == CapabilityState::Available)
            &&& (args[9] == "whpx"@ <==> spec.acceleration == QemuAcceleration::Whpx)
            &&& (args[9] == "tcg"@ <==> spec.acceleration == QemuAcceleration::Tcg)
        }),
{
    reveal_strlit("-accel");
    reveal_strlit("whpx");
    reveal_strlit("tcg");
    let spec = r->Ok_0;
    let args = texts(spec.arguments@);
    let base = base_arguments(config, status, boot_mode, network_for(config.network_mode)->0);
    let rest = drive_arguments(config) + cdrom_arguments(config, boot_mode);
    assert(args =~= base + rest);
    assert(args[8] == base[8]);
    assert(args[9] == base[9]);
    assert("whpx"@.len() != "tcg"@.len());
}

/// An argument without control characters that differs from every shell word in its
/// length or its first characters is accepted.
proof fn lemma_argument_accepted(a: Seq<char>)
    requires
        !has_char_in(a, CharClass::Control),
        a.len() >= 2,
        !(a.len() == 7 && a[0] == 'c'),
        !((a.len() == 10 || a.len() == 4) && a[0] == 'p'),
        !(a.len() == 2 && a[0] == 's'),
        !(a.len() == 2 && a[0] == '-' && a[1] == 'c'),
    ensures
        !is_rejected_argument(a),
{
    reveal_strlit("cmd.exe");
    reveal_strlit("powershell");
    reveal_strlit("pwsh");
    reveal_strlit("sh");
    reveal_strlit("-c");
    if a == "cmd.exe"@ {
        assert(a[0] == 'c');
    }
    if a == "powershell"@ || a == "pwsh"@ {
        assert(a[0] == 'p');
    }
    if a == "sh"@ {
        assert(a[0] == 's');
    }
    if a == "-c"@ {
        assert(a[1] == 'c');
    }
}

/// None of the literal arguments of the command line is refused by the launch check.
proof fn lemma_literals_accepted()
    ensures
        !is_rejected_argument("-name"@),
        !is_rejected_argument("-machine"@),
        !is_rejected_argument("q35"@),
        !is_rejected_argument("-smp"@),
        !is_rejected_argument("-m"@),
        !is_rejected_argument("-accel"@),
        !is_rejected_argument("whpx"@),
        !is_rejected_argument("tcg"@),
        !is_rejected_argument("-display"@),
        !is_rejected_argument("sdl"@),
        !is_rejected_argument("gtk,full-screen=on"@),
        !is_rejected_argument("none"@),
        !is_rejected_argument("-nic"@),
        !is_rejected_argument("user"@),
        !is_rejected_argument("-boot"@),
        !is_rejected_argument("order=d"@),
        !is_rejected_argument("order=c"@),
        !is_rejected_argument("-drive"@),
        !is_rejected_argument("-cdrom"@),
{
    reveal_strlit("-name");
    lemma_argument_accepted("-name"@);
    reveal_strlit("-machine");
    lemma_argument_accepted("-machine"@);
    reveal_strlit("q35");
    lemma_argument_accepted("q35"@);
    reveal_strlit("-smp");
    lemma_argument_accepted("-smp"@);
    reveal_strlit("-m");
    lemma_argument_accepted("-m"@);
    reveal_strlit("-accel");
    lemma_argument_accepted("-accel"@);
    reveal_strlit("whpx");
    lemma_argument_accepted("whpx"@);
    reveal_strlit("tcg");
    lemma_argument_accepted("tcg"@);
    reveal_strlit("-display");
    lemma_argument_accepted("-display"@);
    reveal_strlit("sdl");
    lemma_argument_accepted("sdl"@);
    reveal_strlit("gtk,full-screen=on");
    lemma_argument_accepted("gtk,full-screen=on"@);
    reveal_strlit("none");
    lemma_argument_accepted("none"@);
    reveal_strlit("-nic");
    lemma_argument_accepted("-nic"@);
    reveal_strlit("user");
    lemma_argument_accepted("user"@);
    reveal_strlit("-boot");
    lemma_argument_accepted("-boot"@);
    reveal_strlit("order=d");
    lemma_argument_accepted("order=d"@);
    reveal_strlit("order=c");
    lemma_argument_accepted("order=c"@);
    reveal_strlit("-drive");
    lemma_argument_accepted("-drive"@);
    reveal_strlit("-cdrom");
    lemma_argument_accepted("-cdrom"@);
}

/// None of the fixed arguments of the command line is refused by the launch check.
proof fn lemma_fixed_arguments_accepted(
    config: VmConfiguration,
    status: RuntimeStatus,
    boot_mode: QemuBootMode,
    network: QemuNetworkMode,
)
    requires
        !has_char_in(trimmed(config.name@), CharClass::Control),
        !is_shell_word(trimmed(config.name@)),
    ensures
        forall|k: int|
            0 <= k < base_arguments(config, status, boot_mode, network).len()
                ==> !#[trigger] is_rejected_argument(base_arguments(config, status, boot_mode, network)[k]),
{
    lemma_literals_accepted();
    reveal_strlit("cmd.exe");
    reveal_strlit("powershell");
    reveal_strlit("pwsh");
    reveal_strlit("sh");
    reveal_strlit("-c");
    let base = base_arguments(config, status, boot_mode, network);
    crate::text::lemma_decimal_digits(config.cpu_count as nat);
    crate::text::lemma_decimal_digits(config.memory_mi_b as nat);
    assert forall|k: int| 0 <= k < base.len() implies !#[trigger] is_rejected_argument(base[k]) by {
        if k == 5 || k == 7 {
            let n: nat = if k == 5 { config.cpu_count as nat } else { config.memory_mi_b as nat };
            assert(base[k] == decimal(n));
            assert(!is_shell_word(decimal(n)) && !has_char_in(decimal(n), CharClass::Control)) by {
                assert('0' <= decimal(n)[0] <= '9');
                assert(decimal(n) != "cmd.exe"@ ==> true);
                if is_shell_word(decimal(n)) {
                    assert(decimal(n)[0] == 'c' || decimal(n)[0] == 'p' || decimal(n)[0] == 's'
                        || decimal(n)[0] == '-');
                }
                if has_char_in(decimal(n), CharClass::Control) {
                    let i = choose|i: int| 0 <= i < decimal(n).len() && #[trigger] in_class(decimal(n)[i], CharClass::Control);
                    assert('0' <= decimal(n)[i] <= '9');
                }
            }
        } else if k == 9 {
        } else if k == 11 {
        } else if k == 13 {
        } else if k == 15 {
        } else if k == 1 {
        } else {
        }
    }
}

proof fn lemma_drive_text_accepted(d: Seq<char>)
    requires
        !has_char_in(d, CharClass::Control),
    ensures
        !is_rejected_argument("file="@ + d + ",format=qcow2"@),
{
    reveal_strlit("file=");
    reveal_strlit(",format=qcow2");
    reveal_strlit("cmd.exe");
    reveal_strlit("powershell");
    reveal_strlit("pwsh");
    reveal_strlit("sh");
    reveal_strlit("-c");
    assert("file="@.len() == 5);
    assert(!has_char_in("file="@, CharClass::Control));
    assert(!has_char_in(",format=qcow2"@, CharClass::Control));
    let x = "file="@ + d + ",format=qcow2"@;
    assert(x[0] == 'f');
    assert("cmd.exe"@[0] == 'c');
    assert("powershell"@[0] == 'p');
    assert("pwsh"@[0] == 'p');
    assert("sh"@[0] == 's');
    assert("-c"@[0] == '-');
    if has_char_in(x, CharClass::Control) {
        let i = choose|i: int| 0 <= i < x.len() && #[trigger] in_class(x[i], CharClass::Control);
        if i < 5 {
            assert(x[i] == "file="@[i]);
        } else if i < 5 + d.len() {
            assert(x[i] == d[i - 5]);
        } else {
            assert(x[i] == ",format=qcow2"@[i - 5 - d.len()]);
        }
    }
}

proof fn lemma_no_control_in_trim(s: Seq<char>)
    requires
        !has_char_in(s, CharClass::Control),
    ensures
        !has_char_in(trimmed(s), CharClass::Control),
{
    let (a, b) = crate::text::lemma_trimmed_slice(s);
    let t = trimmed(s);
    if has_char_in(t, CharClass::Control) {
        let i = choose|i: int| 0 <= i < t.len() && #[trigger] in_class(t[i], CharClass::Control);
        assert(t[i] == s[i + a]);
    }
}

/// A command that was built passes the launch check, with the same answer of the file
/// system on its executable; provided that the disk path carries no control character
/// (only its trimmed form is checked) and that neither the trimmed name nor the trimmed
/// ISO path is a shell program name or `-c`.
pub proof fn lemma_built_command_passes_launch_check(
    config: VmConfiguration,
    status: RuntimeStatus,
    boot_mode: QemuBootMode,
    disk_is_file: bool,
    executable_is_file: bool,
    windows: bool,
    spec: QemuCommandSpec,
)
    requires
        built_from(
            Ok::<QemuCommandSpec, CommandError>(spec),
            config,
            status,
            boot_mode,
            disk_is_file,
            executable_is_file,
            windows,
        ),
        config.disk_path matches Some(p) ==> !has_char_in(p@, CharClass::Control),
        !is_shell_word(trimmed(config.name@)),
        !is_shell_word(trimmed(config.iso_path@)),
    ensures
        command_spec_check(spec, executable_is_file) is Ok,
{
    let network = network_for(config.network_mode)->0;
    let args = command_arguments(config, status, boot_mode, network);
    let base = base_arguments(config, status, boot_mode, network);
    let drive = drive_arguments(config);
    let cdrom = cdrom_arguments(config, boot_mode);
    // The name has no control character: it passed the shell-character rule.
    if has_char_in(config.name@, CharClass::Control) {
        let i = choose|i: int| 0 <= i < config.name@.len() && #[trigger] in_class(config.name@[i], CharClass::Control);
        assert(in_class(config.name@[i], CharClass::ShellMeta));
    }
    lemma_no_control_in_trim(config.name@);
    lemma_fixed_arguments_accepted(config, status, boot_mode, network);
    lemma_literals_accepted();
    if let Some(p) = config.disk_path {
        lemma_drive_text_accepted(p@);
    }
    if trimmed(config.iso_path@).len() > 0 {
        assert(command_path_check("isoPath"@, config.iso_path@, false) is Ok);
    }
    assert forall|k: int| 0 <= k < args.len() implies !#[trigger] is_rejected_argument(args[k]) by {
        if k < base.len() {
            assert(args[k] == base[k]);
        } else if k < base.len() + drive.len() {
            assert(args[k] == drive[k - base.len()]);
        } else {
            assert(args[k] == cdrom[k - base.len() - drive.len()]);
        }
    }
    assert forall|k: int| 0 <= k < spec.arguments@.len() implies !#[trigger] is_rejected_argument(
        spec.arguments@[k]@,
    ) by {
        assert(texts(spec.arguments@)[k] == spec.arguments@[k]@);
    }
    assert(texts(spec.arguments@).len() == spec.arguments@.len());
}

/// Building is deterministic: the same configuration, runtime status and boot mode, with
/// the same answers of the file system, give the same command.
pub proof fn lemma_build_is_deterministic(
    config: VmConfiguration,
    status: RuntimeStatus,
    boot_mode: QemuBootMode,
    disk_is_file: bool,
    executable_is_file: bool,
    windows: bool,
    first: Result<QemuCommandSpec, CommandError>,
    second: Result<QemuCommandSpec, CommandError>,
)
    requires
        built_from(first, config, status, boot_mode, disk_is_file, executable_is_file, windows),
        built_from(second, config, status, boot_mode, disk_is_file, executable_is_file, windows),
    ensures
        first is Ok <==> second is Ok,
        first matches Ok(a) ==> second matches Ok(b) && a.executable_path@ == b.executable_path@
            && texts(a.arguments@) == texts(b.arguments@) && a.vm_id@ == b.vm_id@
            && a.working_directory == b.working_directory && a.diagnostics@ == b.diagnostics@
            && a.acceleration == b.acceleration && a.display_mode == b.display_mode
            && a.network_mode == b.network_mode && a.boot_mode == b.boot_mode,
        first matches Err(a) ==> second matches Err(b) && a@ == b@,
{
}

} // verus!
