//! Application settings, their validation, and the structured error type of every command.
use vstd::prelude::*;

use crate::text::{contains_char_in, has_char_in, owned, trim, trimmed, CharClass};

verus! {

pub const MIN_MEMORY_MIB: u32 = 512;

pub const MAX_MEMORY_MIB: u32 = 262_144;

pub const MIN_CPU_COUNT: u8 = 1;

pub const MAX_CPU_COUNT: u8 = 128;

/// A structured error: a machine-readable code, a message for the user, and the
/// form field it concerns, if any.
#[derive(Debug)]
pub struct CommandError {
    pub code: &'static str,
    pub message: String,
    pub field: Option<&'static str>,
}

/// The mathematical value of a [`CommandError`].
pub struct CommandErrorView {
    pub code: Seq<char>,
    pub message: Seq<char>,
    pub field: Option<Seq<char>>,
}

pub open spec fn opt_str_view(o: Option<&str>) -> Option<Seq<char>> {
    match o {
        Some(s) => Some(s@),
        None => None,
    }
}

pub open spec fn opt_string_view(o: Option<String>) -> Option<Seq<char>> {
    match o {
        Some(s) => Some(s@),
        None => None,
    }
}

impl View for CommandError {
    type V = CommandErrorView;

    open spec fn view(&self) -> CommandErrorView {
        CommandErrorView { code: self.code@, message: self.message@, field: opt_str_view(self.field) }
    }
}

/// The view of a `Result` whose error is a [`CommandError`] and whose success carries nothing.
pub open spec fn outcome(r: Result<(), CommandError>) -> Result<(), CommandErrorView> {
    match r {
        Ok(_) => Ok(()),
        Err(e) => Err(e@),
    }
}

pub open spec fn validation_error(field: Seq<char>, message: Seq<char>) -> CommandErrorView {
    CommandErrorView { code: "validation_error"@, message, field: Some(field) }
}

pub open spec fn plain_error(code: Seq<char>, message: Seq<char>) -> CommandErrorView {
    CommandErrorView { code, message, field: None }
}

impl CommandError {
    /// An invalid value in the form field `field`.
    pub fn validation(field: &'static str, message: &str) -> (e: CommandError)
        ensures
            e@ == validation_error(field@, message@),
            e.field == Some(field),
    {
        CommandError { code: "validation_error", message: owned(message), field: Some(field) }
    }

    /// A failure to read or write persisted data.
    pub fn storage(message: &str) -> (e: CommandError)
        ensures
            e@ == plain_error("storage_error"@, message@),
    {
        CommandError { code: "storage_error", message: owned(message), field: None }
    }

    /// A requested item does not exist.
    pub fn not_found(message: &str) -> (e: CommandError)
        ensures
            e@ == plain_error("not_found"@, message@),
    {
        CommandError { code: "not_found", message: owned(message), field: None }
    }

    /// A request collides with existing state.
    pub fn conflict(message: &str) -> (e: CommandError)
        ensures
            e@ == plain_error("conflict"@, message@),
    {
        CommandError { code: "conflict", message: owned(message), field: None }
    }

    /// The runtime (QEMU, its processes) could not do what was asked.
    pub fn runtime(message: &str) -> (e: CommandError)
        ensures
            e@ == plain_error("runtime_error"@, message@),
    {
        CommandError { code: "runtime_error", message: owned(message), field: None }
    }

    /// A value is well formed but not supported.
    pub fn unsupported(message: &str) -> (e: CommandError)
        ensures
            e@ == plain_error("unsupported"@, message@),
    {
        CommandError { code: "unsupported", message: owned(message), field: None }
    }
}

/// How a virtual machine's display is shown.
#[derive(Clone, Copy, Debug, PartialEq, Eq)]
pub enum DisplayMode {
    Windowed,
    Fullscreen,
    Headless,
}

/// The user's preferences.
#[derive(Clone, Debug, PartialEq)]
pub struct AppSettings {
    pub qemu_executable_path: Option<String>,
    pub default_vm_storage_path: Option<String>,
    pub default_iso_path: Option<String>,
    pub default_memory_mi_b: u32,
    pub default_cpu_count: u8,
    pub preferred_display_mode: DisplayMode,
    pub start_minimized: bool,
    pub check_for_updates: bool,
}

/// The settings in effect when none are stored.
pub open spec fn is_default_settings(s: AppSettings) -> bool {
    &&& s.qemu_executable_path is None
    &&& s.default_vm_storage_path is None
    &&& s.default_iso_path is None
    &&& s.default_memory_mi_b == 4096
    &&& s.default_cpu_count == 2
    &&& s.preferred_display_mode == DisplayMode::Windowed
    &&& !s.start_minimized
    &&& s.check_for_updates
}

impl Default for AppSettings {
    fn default() -> (s: Self)
        ensures
            is_default_settings(s),
    {
        AppSettings {
            qemu_executable_path: None,
            default_vm_storage_path: None,
            default_iso_path: None,
            default_memory_mi_b: 4096,
            default_cpu_count: 2,
            preferred_display_mode: DisplayMode::Windowed,
            start_minimized: false,
            check_for_updates: true,
        }
    }
}

/// The rule for an optional path in the settings: absent is fine; present, it must be
/// non-blank and free of control characters, and on Windows (`windows`) also of the
/// characters Windows refuses.
pub open spec fn settings_path_check(field: Seq<char>, value: Option<Seq<char>>, windows: bool) -> Result<
    (),
    CommandErrorView,
> {
    match value {
        None => Ok(()),
        Some(p) => {
            let t = trimmed(p);
            if t.len() == 0 {
                Err(validation_error(field, "Path cannot be empty."@))
            } else if has_char_in(t, CharClass::Control) {
                Err(validation_error(field, "Path contains invalid control characters."@))
            } else if windows && has_char_in(t, CharClass::WindowsReserved) {
                Err(
                    validation_error(
                        field,
                        "Path contains characters that are not valid on Windows."@,
                    ),
                )
            } else {
                Ok(())
            }
        },
    }
}

/// What [`AppSettings::validate_on`] answers: the first rule that fails, in the order
/// QEMU path, storage path, ISO path, memory, CPU count; `windows` tells whether the
/// paths follow the Windows rules.
pub open spec fn settings_check(s: AppSettings, windows: bool) -> Result<(), CommandErrorView> {
    let qemu = settings_path_check(
        "qemuExecutablePath"@,
        opt_string_view(s.qemu_executable_path),
        windows,
    );
    let storage = settings_path_check(
        "defaultVmStoragePath"@,
        opt_string_view(s.default_vm_storage_path),
        windows,
    );
    let iso = settings_path_check("defaultIsoPath"@, opt_string_view(s.default_iso_path), windows);
    if qemu is Err {
        qemu
    } else if storage is Err {
        storage
    } else if iso is Err {
        iso
    } else if !(MIN_MEMORY_MIB <= s.default_memory_mi_b <= MAX_MEMORY_MIB) {
        Err(
            validation_error(
                "defaultMemoryMiB"@,
                "Memory must be between 512 MiB and 262144 MiB."@,
            ),
        )
    } else if !(MIN_CPU_COUNT <= s.default_cpu_count <= MAX_CPU_COUNT) {
        Err(validation_error("defaultCpuCount"@, "CPU count must be between 1 and 128."@))
    } else {
        Ok(())
    }
}

/// `std::path::MAIN_SEPARATOR`, the path separator of the platform the program was built
/// for: `\` on Windows and `/` on Unix, as its documentation says. Nothing is promised
/// of it here: it depends on the platform.
#[verifier::external_body]
fn main_separator() -> char {
    std::path::MAIN_SEPARATOR
}

/// Whether paths follow the Windows rules on this platform: the path separator is `\`
/// exactly on Windows.
pub fn windows_paths() -> bool {
    main_separator() == '\\'
}

impl AppSettings {
    /// Checks the paths and the resource defaults on this platform.
    pub fn validate(&self) -> (r: Result<(), CommandError>)
        ensures
            exists|windows: bool| outcome(r) == #[trigger] settings_check(*self, windows),
    {
        self.validate_on(windows_paths())
    }

    /// Checks the paths, with the Windows rules when `windows`, and the resource defaults.
    pub fn validate_on(&self, windows: bool) -> (r: Result<(), CommandError>)
        ensures
            outcome(r) == settings_check(*self, windows),
    {
        validate_optional_path(
            "qemuExecutablePath",
            opt_as_str(&self.qemu_executable_path),
            windows,
        )?;
        validate_optional_path(
            "defaultVmStoragePath",
            opt_as_str(&self.default_vm_storage_path),
            windows,
        )?;
        validate_optional_path("defaultIsoPath", opt_as_str(&self.default_iso_path), windows)?;
        if !(MIN_MEMORY_MIB <= self.default_memory_mi_b && self.default_memory_mi_b
            <= MAX_MEMORY_MIB) {
            return Err(
                CommandError::validation(
                    "defaultMemoryMiB",
                    "Memory must be between 512 MiB and 262144 MiB.",
                ),
            );
        }
        if !(MIN_CPU_COUNT <= self.default_cpu_count && self.default_cpu_count <= MAX_CPU_COUNT) {
            return Err(
                CommandError::validation("defaultCpuCount", "CPU count must be between 1 and 128."),
            );
        }
        Ok(())
    }
}

/// `Option<String>::as_deref`.
pub fn opt_as_str(o: &Option<String>) -> (r: Option<&str>)
    ensures
        opt_str_view(r) == opt_string_view(*o),
{
    match o {
        Some(s) => Some(s.as_str()),
        None => None,
    }
}

fn validate_optional_path(field: &'static str, value: Option<&str>, windows: bool) -> (r: Result<
    (),
    CommandError,
>)
    ensures
        outcome(r) == settings_path_check(field@, opt_str_view(value), windows),
{
    let path = match value {
        None => {
            return Ok(());
        },
        Some(p) => p,
    };
    let path = trim(path);
    if path.unicode_len() == 0 {
        return Err(CommandError::validation(field, "Path cannot be empty."));
    }
    if contains_char_in(path, CharClass::Control) {
        return Err(CommandError::validation(field, "Path contains invalid control characters."));
    }
    if windows && contains_char_in(path, CharClass::WindowsReserved) {
        return Err(
            CommandError::validation(
                field,
                "Path contains characters that are not valid on Windows.",
            ),
        );
    }
    Ok(())
}

/// Settings read back from storage: kept when they parsed and validate on this
/// platform, otherwise the defaults. `parsed` is `None` when the stored text was not
/// valid settings JSON.
pub fn settings_or_default(parsed: Option<AppSettings>) -> (s: AppSettings)
    ensures
        exists|windows: bool| #[trigger] recovered(parsed, s, windows),
{
    let windows = windows_paths();
    let s = match parsed {
        Some(p) => {
            if p.validate_on(windows).is_ok() {
                p
            } else {
                AppSettings::default()
            }
        },
        None => AppSettings::default(),
    };
    proof {
        if is_default_settings(s) {
            lemma_default_settings_valid(s, windows);
        }
    }
    assert(recovered(parsed, s, windows));
    s
}

/// `s` is what settings recovery gives for `parsed` where paths follow the Windows rules
/// when `windows`: the parsed settings when they validate, the defaults otherwise; and it
/// validates.
pub open spec fn recovered(parsed: Option<AppSettings>, s: AppSettings, windows: bool) -> bool {
    &&& match parsed {
        Some(p) => if settings_check(p, windows) is Ok {
            s == p
        } else {
            is_default_settings(s)
        },
        None => is_default_settings(s),
    }
    &&& settings_check(s, windows) is Ok
}

/// Saved settings are read back unchanged: settings are saved only once they pass
/// validation, and settings that pass validation are what recovery gives back for them
/// on the same platform. With nothing stored, or what is stored unreadable, recovery
/// gives the defaults.
pub proof fn lemma_saved_settings_read_back(
    saved: AppSettings,
    parsed: Option<AppSettings>,
    loaded: AppSettings,
    windows: bool,
)
    requires
        recovered(parsed, loaded, windows),
    ensures
        parsed == Some(saved) && settings_check(saved, windows) is Ok ==> loaded == saved,
        parsed is None ==> is_default_settings(loaded),
{
}

/// The default settings pass validation, on every platform.
pub proof fn lemma_default_settings_valid(s: AppSettings, windows: bool)
    requires
        is_default_settings(s),
    ensures
        settings_check(s, windows) is Ok,
{
}

} // verus!
