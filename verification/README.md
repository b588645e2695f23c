# nexoravm

The backend of NexoraVM, a desktop manager for QEMU virtual machines, as a library
whose behaviour is stated in `requires` / `ensures` contracts and proved with Verus.

- `src/` — the verified library:
  - `settings.rs`: application settings, their validation, the structured error type.
  - `vm_config.rs`: VM configurations and their validation.
  - `vm_definitions.rs`: the list of stored VM definitions and its operations (get,
    create, update, delete, checking what was loaded), with the laws that relate them.
  - `qemu_command.rs`: the QEMU command line of a VM, built as an executable and a list
    of separate arguments, and the checks made before launch.
  - `runtime_adapter.rs`: QEMU discovery (configured path, standard locations, `PATH`, version
    line) and the runtime adapter interface.
  - `process_manager.rs`: the table of QEMU processes and its start, status and stop
    decisions; bounded output buffers.
  - `disk_manager.rs`: the `qemu-img` command that creates a VM disk and the decisions
    around it.
  - `search.rs`: the order in which the QEMU and `qemu-img` executables are looked for,
    and the candidates joined into paths.
  - `handles.rs`: handles that record, as ghost state, the calls made to launchers,
    child processes and hosts, so that contracts can say which calls were made.
  - `text.rs`: string rules shared by the checks (trimming, character classes,
    decimal rendering).
- `tests/` — tests of the library on concrete values.
- `app/` — the desktop application around the library: Tauri commands, JSON storage,
  the real host (environment, clock, processes, reader threads), which runs the
  library's decisions (such as each step of the version query) and reads the search
  directories from the environment.

Everything that depends on the machine (files on disk, processes, the clock, the
environment) reaches the library through a host or launcher trait, or through a small
trusted wrapper; the library's contracts say what holds whatever those answer.
