//! Configuration, validation and QEMU command logic of a desktop virtual machine workspace.
use vstd::prelude::*;

pub mod disk_manager;
pub mod files;
pub mod handles;
pub mod process_manager;
pub mod qemu_command;
pub mod runtime_adapter;
pub mod search;
pub mod settings;
pub mod text;
pub mod vm_config;
pub mod vm_definitions;

verus! {
} // verus!
