//! The typed configuration of one virtual machine and its validation.
use vstd::prelude::*;

use crate::settings::{
    opt_as_str, opt_str_view, opt_string_view, outcome, validation_error, windows_paths,
    CommandError, CommandErrorView, DisplayMode, MAX_MEMORY_MIB, MIN_MEMORY_MIB,
};
use crate::text::{all_id_chars, contains_char_in, has_char_in, is_id_text, trim, trimmed, CharClass};

verus! {

pub const MAX_NAME_LENGTH: usize = 100;

pub const MAX_VM_CPU_COUNT: u8 = 128;

pub const MAX_DISK_SIZE_GIB: u32 = 1_048_576;

pub const MAX_ID_LENGTH: usize = 64;

/// The guest operating system family.
#[derive(Clone, Copy, Debug, PartialEq, Eq)]
pub enum OperatingSystem {
    Windows,
    Linux,
    Bsd,
    Other,
}

/// How the guest reaches the network.
#[derive(Clone, Copy, Debug, PartialEq, Eq)]
pub enum NetworkMode {
    Disabled,
    User,
    Bridged,
}

/// A virtual machine as the user configured it.
#[derive(Clone, Debug)]
pub struct VmConfiguration {
    pub id: String,
    pub name: String,
    pub operating_system: OperatingSystem,
    pub cpu_count: u8,
    pub memory_mi_b: u32,
    pub disk_size_gi_b: u32,
    pub disk_path: Option<String>,
    pub iso_path: String,
    pub network_mode: NetworkMode,
    pub display_mode: DisplayMode,
    pub secure_boot_enabled: bool,
    pub tpm_enabled: bool,
}

/// The rule for a VM id: after trimming, 1 to 64 characters, each an ASCII letter or
/// digit, `-` or `_`.
pub open spec fn vm_id_check(id: Seq<char>) -> Result<(), CommandErrorView> {
    let t = trimmed(id);
    if t.len() == 0 {
        Err(validation_error("id"@, "VM id is required."@))
    } else if t.len() > MAX_ID_LENGTH {
        Err(validation_error("id"@, "VM id cannot exceed 64 characters."@))
    } else if !is_id_text(t) {
        Err(
            validation_error(
                "id"@,
                "VM id may contain only letters, numbers, hyphens, and underscores."@,
            ),
        )
    } else {
        Ok(())
    }
}

/// The rule for an optional path of a VM: absent or blank is fine; otherwise no control
/// characters and, on Windows (`windows`), no characters that Windows refuses.
pub open spec fn vm_path_check(field: Seq<char>, value: Option<Seq<char>>, windows: bool) -> Result<
    (),
    CommandErrorView,
> {
    match value {
        None => Ok(()),
        Some(p) => {
            let t = trimmed(p);
            if t.len() == 0 {
                Ok(())
            } else if has_char_in(t, CharClass::Control) {
                Err(validation_error(field, "Path contains invalid control characters."@))
            } else if windows && has_char_in(t, CharClass::WindowsReserved) {
                Err(
                    validation_error(
                        field,
                        "Path contains characters that are not valid on Windows."@,
                    ),
                )
            } else {
                Ok(())
            }
        },
    }
}

/// What [`VmConfiguration::validate_on`] answers: the first rule that fails, in the order
/// id, name, CPU count, memory, disk size, ISO path, disk path; `windows` tells whether
/// the paths follow the Windows rules.
pub open spec fn configuration_check(c: VmConfiguration, windows: bool) -> Result<(), CommandErrorView> {
    let name = trimmed(c.name@);
    if vm_id_check(c.id@) is Err {
        vm_id_check(c.id@)
    } else if name.len() == 0 {
        Err(validation_error("name"@, "VM name is required."@))
    } else if name.len() > MAX_NAME_LENGTH {
        Err(validation_error("name"@, "VM name cannot exceed 100 characters."@))
    } else if c.cpu_count == 0 || c.cpu_count > MAX_VM_CPU_COUNT {
        Err(validation_error("cpuCount"@, "CPU count must be between 1 and 128."@))
    } else if !(MIN_MEMORY_MIB <= c.memory_mi_b <= MAX_MEMORY_MIB) {
        Err(validation_error("memoryMiB"@, "Memory must be between 512 MiB and 262144 MiB."@))
    } else if c.disk_size_gi_b == 0 || c.disk_size_gi_b > MAX_DISK_SIZE_GIB {
        Err(
            validation_error(
                "diskSizeGiB"@,
                "Disk size must be between 1 GiB and 1048576 GiB."@,
            ),
        )
    } else if vm_path_check("isoPath"@, Some(c.iso_path@), windows) is Err {
        vm_path_check("isoPath"@, Some(c.iso_path@), windows)
    } else {
        vm_path_check("diskPath"@, opt_string_view(c.disk_path), windows)
    }
}

impl VmConfiguration {
    /// Checks the id, the name, the resources and the paths on this platform.
    pub fn validate(&self) -> (r: Result<(), CommandError>)
        ensures
            exists|windows: bool| outcome(r) == #[trigger] configuration_check(*self, windows),
    {
        self.validate_on(windows_paths())
    }

    /// Checks the id, the name, the resources and the paths, with the Windows rules when
    /// `windows`.
    pub fn validate_on(&self, windows: bool) -> (r: Result<(), CommandError>)
        ensures
            outcome(r) == configuration_check(*self, windows),
    {
        validate_vm_id(self.id.as_str())?;
        let name = trim(self.name.as_str());
        if name.unicode_len() == 0 {
            return Err(CommandError::validation("name", "VM name is required."));
        }
        if name.unicode_len() > MAX_NAME_LENGTH {
            return Err(CommandError::validation("name", "VM name cannot exceed 100 characters."));
        }
        if self.cpu_count == 0 || self.cpu_count > MAX_VM_CPU_COUNT {
            return Err(CommandError::validation("cpuCount", "CPU count must be between 1 and 128."));
        }
        if !(MIN_MEMORY_MIB <= self.memory_mi_b && self.memory_mi_b <= MAX_MEMORY_MIB) {
            return Err(
                CommandError::validation(
                    "memoryMiB",
                    "Memory must be between 512 MiB and 262144 MiB.",
                ),
            );
        }
        if self.disk_size_gi_b == 0 || self.disk_size_gi_b > MAX_DISK_SIZE_GIB {
            return Err(
                CommandError::validation(
                    "diskSizeGiB",
                    "Disk size must be between 1 GiB and 1048576 GiB.",
                ),
            );
        }
        validate_optional_path("isoPath", Some(self.iso_path.as_str()), windows)?;
        validate_optional_path("diskPath", opt_as_str(&self.disk_path), windows)
    }
}

/// Checks a VM id by [`vm_id_check`].
pub fn validate_vm_id(id: &str) -> (r: Result<(), CommandError>)
    ensures
        outcome(r) == vm_id_check(id@),
{
    let id = trim(id);
    if id.unicode_len() == 0 {
        return Err(CommandError::validation("id", "VM id is required."));
    }
    if id.unicode_len() > MAX_ID_LENGTH {
        return Err(CommandError::validation("id", "VM id cannot exceed 64 characters."));
    }
    if !all_id_chars(id) {
        return Err(
            CommandError::validation(
                "id",
                "VM id may contain only letters, numbers, hyphens, and underscores.",
            ),
        );
    }
    Ok(())
}

/// Checks an optional VM path by [`vm_path_check`].
pub fn validate_optional_path(field: &'static str, value: Option<&str>, windows: bool) -> (r: Result<
    (),
    CommandError,
>)
    ensures
        outcome(r) == vm_path_check(field@, opt_str_view(value), windows),
{
    let path = match value {
        None => {
            return Ok(());
        },
        Some(p) => p,
    };
    let path = trim(path);
    if path.unicode_len() == 0 {
        return Ok(());
    }
    if contains_char_in(path, CharClass::Control) {
        return Err(CommandError::validation(field, "Path contains invalid control characters."));
    }
    if windows && contains_char_in(path, CharClass::WindowsReserved) {
        return Err(
            CommandError::validation(
                field,
                "Path contains characters that are not valid on Windows.",
            ),
        );
    }
    Ok(())
}

} // verus!
