//! Persistent VM disks: the `qemu-img` command that creates one, and the decisions of
//! creating and reporting it. `qemu-img` is looked for in the order of
//! [`qemu_img_candidate_order`], and running it is asked of a [`DiskHost`]; nothing is
//! assumed of its answers.
use vstd::prelude::*;

use crate::handles::QemuImgHost;
use crate::files::{answered_exists, answered_is_dir, answered_is_file, ask_exists, ask_is_dir, ask_is_file};
use crate::qemu_command::texts;
use crate::search::{
    configured_parent, configured_qemu_parent, join_candidates, joined_list,
    qemu_img_candidate_order, qemu_img_search_candidates, SearchDirs,
};
use crate::settings::{
    opt_string_view, outcome, plain_error, validation_error, AppSettings, CommandError,
    CommandErrorView,
};
use crate::text::{decimal, decimal_string, owned, trim, trimmed};
use crate::vm_config::VmConfiguration;

verus! {

/// The image format of every disk.
pub const DISK_FORMAT: &'static str = "qcow2";

/// Whether a VM's disk image exists.
#[derive(Clone, Copy, Debug, PartialEq, Eq, Structural)]
pub enum DiskState {
    NotCreated,
    Ready,
    CreationFailed,
}

/// What is known of a VM's disk image.
#[derive(Clone, Debug)]
pub struct DiskStatus {
    pub vm_id: String,
    pub state: DiskState,
    pub path: Option<String>,
    pub size_gi_b: Option<u32>,
    pub format: Option<String>,
    pub message: Option<String>,
}

/// What disk operations need of the host they run on.
pub trait DiskHost {
    /// Runs `executable` with `arguments`, each passed on its own, without a shell and
    /// with standard input closed. `Ok((succeeded, standard error))` once it ran, or why
    /// it could not be started. It is only ever asked to create a `qcow2` image.
    fn run_qemu_img(&self, executable: &str, arguments: &Vec<String>) -> Result<(bool, String), String>
        requires
            exists|path: Seq<char>, size_gib: nat|
                texts(arguments@) == #[trigger] create_arguments(path, size_gib, "qcow2"@),
    ;
}

/// Creates and reports disk images.
pub trait DiskManager {
    fn create_disk<H: DiskHost>(
        &self,
        config: &VmConfiguration,
        dirs: &SearchDirs,
        host: &mut QemuImgHost<H>,
    ) -> Result<DiskStatus, CommandError>;

    fn status(&self, config: &VmConfiguration) -> Result<DiskStatus, CommandError>;
}

/// The disk manager that drives `qemu-img`.
pub struct QemuDiskManager;

impl Default for QemuDiskManager {
    fn default() -> (r: Self) {
        QemuDiskManager
    }
}

/// What [`disk_path_or_error`] answers: the trimmed disk path, which must be given and
/// non-blank.
pub open spec fn disk_path_of(config: VmConfiguration) -> Result<Seq<char>, CommandErrorView> {
    match config.disk_path {
        None => Err(validation_error("diskPath"@, "A disk path is required for disk operations."@)),
        Some(p) => if trimmed(p@).len() == 0 {
            Err(validation_error("diskPath"@, "Disk path cannot be empty."@))
        } else {
            Ok(trimmed(p@))
        },
    }
}

/// The disk path of a configuration, trimmed.
pub fn disk_path_or_error(config: &VmConfiguration) -> (r: Result<String, CommandError>)
    ensures
        match r {
            Ok(p) => disk_path_of(*config) == Ok::<Seq<char>, CommandErrorView>(p@),
            Err(e) => disk_path_of(*config) == Err::<Seq<char>, CommandErrorView>(e@),
        },
{
    let path = match &config.disk_path {
        None => {
            return Err(
                CommandError::validation("diskPath", "A disk path is required for disk operations."),
            );
        },
        Some(p) => trim(p.as_str()),
    };
    if path.unicode_len() == 0 {
        return Err(CommandError::validation("diskPath", "Disk path cannot be empty."));
    }
    Ok(owned(path))
}

/// The arguments of `qemu-img` that create an image of `size_gib` GiB at `path`.
pub open spec fn create_arguments(path: Seq<char>, size_gib: nat, format: Seq<char>) -> Seq<
    Seq<char>,
> {
    seq!["create"@, "-f"@, format, path, decimal(size_gib) + "G"@]
}

/// `qemu-img create -f <format> <path> <size>G`.
pub fn qemu_img_create_args(path: &str, size_gib: u32, format: &str) -> (r: Vec<String>)
    ensures
        texts(r@) == create_arguments(path@, size_gib as nat, format@),
{
    let mut size = decimal_string(size_gib as u64);
    size.append("G");
    let mut args: Vec<String> = Vec::new();
    args.push(owned("create"));
    args.push(owned("-f"));
    args.push(owned(format));
    args.push(owned(path));
    args.push(size);
    assert(texts(args@) =~= create_arguments(path@, size_gib as nat, format@));
    args
}

/// The choice of `qemu-img` among `candidates`, tried in order, where `answers` holds
/// what the file system said of each candidate tried, whether it is a regular file: the
/// first candidate found to be one, or the missing error once every one was tried. Every
/// answer is one the file system gave for that candidate.
pub open spec fn qemu_img_choice(
    candidates: Seq<Seq<char>>,
    answers: Seq<bool>,
    r: Result<String, CommandError>,
) -> bool {
    let n = answers.len();
    &&& n <= candidates.len()
    &&& forall|k: int| 0 <= k < n ==> #[trigger] answered_is_file(candidates[k], answers[k])
    &&& forall|k: int| 0 <= k < n - 1 ==> !#[trigger] answers[k]
    &&& match r {
        Ok(p) => n > 0 && answers[n - 1] && p@ == candidates[n - 1],
        Err(e) => n == candidates.len() && (n == 0 || !answers[n - 1]) && e@ == qemu_img_missing(),
    }
}

/// The candidate chosen from `answers`, what the file system said of the first
/// candidates (one answer each, in order): the first candidate answered to be a regular
/// file, or the missing error when none of them was.
pub open spec fn first_file(
    candidates: Seq<Seq<char>>,
    answers: Seq<bool>,
    r: Result<String, CommandError>,
) -> bool {
    match r {
        Ok(p) => exists|i: int|
            0 <= i < answers.len() && i < candidates.len() && #[trigger] answers[i] && (forall|
                k: int,
            | 0 <= k < i ==> !answers[k]) && p@ == candidates[i],
        Err(e) => e@ == qemu_img_missing() && forall|k: int|
            0 <= k < answers.len() && k < candidates.len() ==> !#[trigger] answers[k],
    }
}

/// Chooses `qemu-img` from what the file system answered of the candidates, as
/// [`first_file`] says.
pub fn choose_from_answers(candidates: &Vec<String>, answers: &Vec<bool>) -> (r: Result<
    String,
    CommandError,
>)
    ensures
        first_file(texts(candidates@), answers@, r),
{
    let mut i: usize = 0;
    while i < answers.len() && i < candidates.len()
        invariant
            i <= answers@.len(),
            i <= candidates@.len(),
            forall|k: int| 0 <= k < i ==> !#[trigger] answers@[k],
        decreases answers.len() - i,
    {
        if answers[i] {
            let r = Ok(candidates[i].clone());
            assert(texts(candidates@)[i as int] == candidates@[i as int]@);
            return r;
        }
        i = i + 1;
    }
    Err(
        CommandError::runtime(
            "qemu-img was not detected. Install QEMU or configure the QEMU executable path.",
        ),
    )
}

/// A search for `qemu-img` for the configured QEMU path `configured` in `dirs`:
/// `parent` is the directory that holds the configured executable, `candidates` are the
/// candidates of [`qemu_img_candidate_order`] joined into paths, `answers` are what the
/// file system said of those tried, and `r` is the choice [`qemu_img_choice`] makes.
pub open spec fn qemu_img_search(
    configured: Option<Seq<char>>,
    dirs: SearchDirs,
    parent: Option<Seq<char>>,
    candidates: Seq<Seq<char>>,
    answers: Seq<bool>,
    r: Result<String, CommandError>,
) -> bool {
    &&& configured_parent(configured, parent)
    &&& joined_list(
        qemu_img_candidate_order(
            parent,
            texts(dirs.program_files_roots@),
            texts(dirs.path_dirs@),
        ),
        candidates,
    )
    &&& qemu_img_choice(candidates, answers, r)
}

/// `r` is what a search for `qemu-img` found, for some answers of the file system.
pub open spec fn qemu_img_found(
    configured: Option<Seq<char>>,
    dirs: SearchDirs,
    r: Result<String, CommandError>,
) -> bool {
    exists|parent: Option<Seq<char>>, candidates: Seq<Seq<char>>, answers: Seq<bool>|
        #[trigger] qemu_img_search(configured, dirs, parent, candidates, answers, r)
}

/// Finds `qemu-img`: beside the configured QEMU executable, then under each Program
/// Files root, then in each `PATH` directory, the first candidate that the file system
/// reports as a regular file; the missing error when there is none.
pub fn find_qemu_img(settings: &AppSettings, dirs: &SearchDirs) -> (r: Result<String, CommandError>)
    ensures
        qemu_img_found(opt_string_view(settings.qemu_executable_path), *dirs, r),
        r matches Err(e) ==> e@ == qemu_img_missing(),
{
    let parent = configured_qemu_parent(&settings.qemu_executable_path);
    let parts = qemu_img_search_candidates(&parent, &dirs.program_files_roots, &dirs.path_dirs);
    let candidates = join_candidates(&parts);
    let (r, answers) = choose_qemu_img(&candidates);
    assert(qemu_img_search(
        opt_string_view(settings.qemu_executable_path),
        *dirs,
        opt_string_view(parent),
        texts(candidates@),
        answers@,
        r,
    ));
    r
}

/// Tries `candidates` in order, asking the file system of each whether it is a regular
/// file, and stops at the first that is: the answers it got, and the choice
/// [`choose_from_answers`] makes from them.
pub fn choose_qemu_img(candidates: &Vec<String>) -> (r: (Result<String, CommandError>, Vec<bool>))
    ensures
        qemu_img_choice(texts(candidates@), r.1@, r.0),
{
    let mut answers: Vec<bool> = Vec::new();
    let mut i: usize = 0;
    let mut found_one = false;
    while i < candidates.len() && !found_one
        invariant
            i <= candidates@.len(),
            answers@.len() == i,
            forall|k: int| 0 <= k < i - 1 ==> !#[trigger] answers@[k],
            found_one == (i > 0 && answers@[i - 1]),
            forall|k: int|
                0 <= k < i ==> #[trigger] answered_is_file(texts(candidates@)[k], answers@[k]),
        decreases candidates.len() - i,
    {
        let found = ask_is_file(candidates[i].as_str());
        assert(texts(candidates@)[i as int] == candidates@[i as int]@);
        answers.push(found);
        found_one = found;
        i = i + 1;
    }
    let r = choose_from_answers(candidates, &answers);
    proof {
        let n = answers@.len() as int;
        if r is Ok {
            let p = r->Ok_0;
            let j = choose|j: int|
                0 <= j < answers@.len() && j < candidates@.len() && #[trigger] answers@[j] && (
                forall|k: int| 0 <= k < j ==> !answers@[k]) && p@ == texts(candidates@)[j];
            if j < n - 1 {
                assert(!answers@[j]);
            }
            assert(j == n - 1);
        } else {
            if n > 0 {
                assert(!answers@[n - 1]);
            }
        }
    }
    (r, answers)
}

/// `qemu-img` is the first candidate that the file system reports as a regular file: a
/// found `qemu-img` is a candidate of which the file system said it is a regular file,
/// having said of every candidate before it that it is not; the missing error comes only
/// once it said of every candidate that it is not one.
pub proof fn lemma_qemu_img_is_first_regular_file(
    candidates: Seq<Seq<char>>,
    answers: Seq<bool>,
    r: Result<String, CommandError>,
)
    requires
        qemu_img_choice(candidates, answers, r),
    ensures
        match r {
            Ok(p) => exists|i: int|
                0 <= i < candidates.len() && p@ == candidates[i] && #[trigger] answered_is_file(
                    candidates[i],
                    true,
                ) && forall|k: int| 0 <= k < i ==> answered_is_file(candidates[k], false),
            Err(e) => e@ == qemu_img_missing() && forall|k: int|
                0 <= k < candidates.len() ==> #[trigger] answered_is_file(candidates[k], false),
        },
{
    let n = answers.len() as int;
    assert forall|k: int| 0 <= k < n - 1 implies answered_is_file(candidates[k], false) by {
        assert(!answers[k]);
        assert(answered_is_file(candidates[k], answers[k]));
    }
    if n > 0 {
        assert(answered_is_file(candidates[n - 1], answers[n - 1]));
    }
}

pub open spec fn qemu_img_missing() -> CommandErrorView {
    plain_error(
        "runtime_error"@,
        "qemu-img was not detected. Install QEMU or configure the QEMU executable path."@,
    )
}

/// The status of the disk of `config` at `path`, in the fixed format and with the
/// configured size.
pub open spec fn disk_status_is(
    s: DiskStatus,
    config: VmConfiguration,
    path: Seq<char>,
    state: DiskState,
) -> bool {
    &&& s.vm_id@ == config.id@
    &&& s.state == state
    &&& s.path matches Some(p) && p@ == path
    &&& s.size_gi_b == Some(config.disk_size_gi_b)
    &&& s.format matches Some(f) && f@ == "qcow2"@
}

pub open spec fn directory_refused() -> CommandErrorView {
    validation_error("diskPath"@, "Disk path must be a regular file, not a directory."@)
}

/// What to do about the disk of `config`, given what the file system said of its path.
pub enum DiskAction {
    /// Answer this error: no usable disk path, or a directory at it.
    Refuse(CommandError),
    /// Report this status: an image is already there and is used as it is.
    UseExisting(DiskStatus),
    /// Run `qemu-img` with these arguments to create the image at this path.
    Create(String, Vec<String>),
}

/// The action for the disk of `config`, where `exists` and `is_dir` are what the file
/// system said of the disk path: refuse a missing path or a directory; use an existing
/// image as it is; otherwise create a `qcow2` image of the configured size.
pub open spec fn disk_action_fits(config: VmConfiguration, exists: bool, is_dir: bool, a: DiskAction) -> bool {
    match disk_path_of(config) {
        Err(e) => a matches DiskAction::Refuse(err) && err@ == e,
        Ok(path) => if exists {
            if is_dir {
                a matches DiskAction::Refuse(err) && err@ == directory_refused()
            } else {
                a matches DiskAction::UseExisting(s) && existing_status(s, config, path)
            }
        } else {
            a matches DiskAction::Create(p, arguments) && p@ == path && texts(arguments@)
                == create_arguments(path, config.disk_size_gi_b as nat, "qcow2"@)
        },
    }
}

/// The status of an image that was already at `path`.
pub open spec fn existing_status(s: DiskStatus, config: VmConfiguration, path: Seq<char>) -> bool {
    &&& disk_status_is(s, config, path, DiskState::Ready)
    &&& s.message is Some
    &&& s.message->0@ == "Disk image already exists; existing image is used."@
}

/// Decides what to do about the disk of `config`, as [`disk_action_fits`] says.
pub fn disk_action(config: &VmConfiguration, exists: bool, is_dir: bool) -> (a: DiskAction)
    ensures
        disk_action_fits(*config, exists, is_dir, a),
{
    let path = match disk_path_or_error(config) {
        Ok(p) => p,
        Err(e) => {
            return DiskAction::Refuse(e);
        },
    };
    if exists {
        if is_dir {
            DiskAction::Refuse(
                CommandError::validation(
                    "diskPath",
                    "Disk path must be a regular file, not a directory.",
                ),
            )
        } else {
            DiskAction::UseExisting(
                DiskStatus {
                    vm_id: config.id.clone(),
                    state: DiskState::Ready,
                    path: Some(path),
                    size_gi_b: Some(config.disk_size_gi_b),
                    format: qcow2(),
                    message: Some(owned("Disk image already exists; existing image is used.")),
                },
            )
        }
    } else {
        let arguments = qemu_img_create_args(path.as_str(), config.disk_size_gi_b, DISK_FORMAT);
        DiskAction::Create(path, arguments)
    }
}

/// What creating the disk of `config` leads to, where `exists` and `is_dir` are what the
/// file system said of the disk path and `before`/`after` the `qemu-img` runs made
/// through the host: nothing is run unless the action is to create the image; then
/// `qemu-img` is looked for in `dirs` (no QEMU path is configured for this search), and
/// when found run once with exactly the create arguments, and its answer decides the
/// status.
pub open spec fn disk_create_outcome(
    config: VmConfiguration,
    exists: bool,
    is_dir: bool,
    dirs: SearchDirs,
    r: Result<DiskStatus, CommandError>,
    before: Seq<(Seq<char>, Seq<Seq<char>>)>,
    after: Seq<(Seq<char>, Seq<Seq<char>>)>,
) -> bool {
    match disk_path_of(config) {
        Err(e) => after == before && (r matches Err(err) && err@ == e),
        Ok(path) => if exists {
            &&& after == before
            &&& if is_dir {
                r matches Err(err) && err@ == directory_refused()
            } else {
                r matches Ok(s) && existing_status(s, config, path)
            }
        } else {
            ||| after == before && (r matches Err(err) && err@ == qemu_img_missing()
                && qemu_img_found(None, dirs, Err(err)))
            ||| exists|qemu_img: String, run: Result<(bool, Seq<char>), Seq<char>>|
                #[trigger] created_with(config, dirs, path, qemu_img, run, r, before, after)
        },
    }
}

/// `qemu-img` was found at `qemu_img` by the search in `dirs`, was run once, with the
/// create arguments of `config` for `path`, answered `run`, and `r` follows from that
/// answer.
pub open spec fn created_with(
    config: VmConfiguration,
    dirs: SearchDirs,
    path: Seq<char>,
    qemu_img: String,
    run: Result<(bool, Seq<char>), Seq<char>>,
    r: Result<DiskStatus, CommandError>,
    before: Seq<(Seq<char>, Seq<Seq<char>>)>,
    after: Seq<(Seq<char>, Seq<Seq<char>>)>,
) -> bool {
    &&& qemu_img_found(None, dirs, Ok(qemu_img))
    &&& after == before.push((qemu_img@, create_arguments(path, config.disk_size_gi_b as nat, "qcow2"@)))
    &&& creation_outcome(config, path, run, r)
}

/// The status of the disk of `config` when the file system said `is_file` of its path:
/// ready exactly when a regular file is there.
pub open spec fn status_outcome(config: VmConfiguration, is_file: bool, r: Result<DiskStatus, CommandError>) -> bool {
    match disk_path_of(config) {
        Err(e) => r matches Err(err) && err@ == e,
        Ok(path) => r matches Ok(s) && s.message is None && disk_status_is(
            s,
            config,
            path,
            if is_file {
                DiskState::Ready
            } else {
                DiskState::NotCreated
            },
        ),
    }
}

/// The status of the disk of `config`, as [`status_outcome`] says.
pub fn disk_status_from(config: &VmConfiguration, is_file: bool) -> (r: Result<DiskStatus, CommandError>)
    ensures
        status_outcome(*config, is_file, r),
{
    let path = disk_path_or_error(config)?;
    Ok(
        DiskStatus {
            vm_id: config.id.clone(),
            state: if is_file {
                DiskState::Ready
            } else {
                DiskState::NotCreated
            },
            path: Some(path),
            size_gi_b: Some(config.disk_size_gi_b),
            format: qcow2(),
            message: None,
        },
    )
}

/// The view of what running `qemu-img` answered: whether it succeeded and its standard
/// error, or why it could not be started.
pub open spec fn run_view(run: Result<(bool, String), String>) -> Result<(bool, Seq<char>), Seq<char>> {
    match run {
        Ok((succeeded, stderr)) => Ok((succeeded, stderr@)),
        Err(why) => Err(why@),
    }
}

/// What creating the image of `config` at `path` leads to, once `qemu-img` answered
/// `run`.
pub open spec fn creation_outcome(
    config: VmConfiguration,
    path: Seq<char>,
    run: Result<(bool, Seq<char>), Seq<char>>,
    r: Result<DiskStatus, CommandError>,
) -> bool {
    match run {
        Err(why) => r matches Err(err) && err@ == plain_error(
            "runtime_error"@,
            "qemu-img could not be started: "@ + why,
        ),
        Ok((true, _)) => r matches Ok(s) && disk_status_is(s, config, path, DiskState::Ready)
            && s.message is None,
        Ok((false, stderr)) => r matches Ok(s) && (disk_status_is(
            s,
            config,
            path,
            DiskState::CreationFailed,
        ) && s.message is Some && s.message->0@ == stderr),
    }
}

/// The status of the image of `config` at `path` once `qemu-img` answered `run`: ready
/// when it succeeded, failed with its standard error when it did not, and an error when
/// it could not be started.
pub fn creation_result(
    config: &VmConfiguration,
    path: String,
    run: Result<(bool, String), String>,
) -> (r: Result<DiskStatus, CommandError>)
    ensures
        creation_outcome(*config, path@, run_view(run), r),
{
    match run {
        Err(error) => {
            let mut message = owned("qemu-img could not be started: ");
            message.append(error.as_str());
            Err(CommandError::runtime(message.as_str()))
        },
        Ok((succeeded, stderr)) => {
            if succeeded {
                Ok(
                    DiskStatus {
                        vm_id: config.id.clone(),
                        state: DiskState::Ready,
                        path: Some(path),
                        size_gi_b: Some(config.disk_size_gi_b),
                        format: qcow2(),
                        message: None,
                    },
                )
            } else {
                Ok(
                    DiskStatus {
                        vm_id: config.id.clone(),
                        state: DiskState::CreationFailed,
                        path: Some(path),
                        size_gi_b: Some(config.disk_size_gi_b),
                        format: qcow2(),
                        message: Some(stderr),
                    },
                )
            }
        },
    }
}

/// Runs `qemu-img` at `qemu_img` once with `arguments`, the create arguments of
/// `config` for `path`, and reports the image as [`creation_outcome`] says of its answer.
pub fn create_with_qemu_img<H: DiskHost>(
    host: &mut QemuImgHost<H>,
    config: &VmConfiguration,
    path: String,
    arguments: &Vec<String>,
    qemu_img: &String,
) -> (r: Result<DiskStatus, CommandError>)
    requires
        texts(arguments@) == create_arguments(path@, config.disk_size_gi_b as nat, "qcow2"@),
    ensures
        final(host).runs() == old(host).runs().push((qemu_img@, texts(arguments@))),
        exists|run: Result<(bool, Seq<char>), Seq<char>>| #[trigger]
            creation_outcome(*config, path@, run, r),
{
    let run = host.run_qemu_img(qemu_img.as_str(), arguments);
    let ghost answered = run_view(run);
    let ghost p = path@;
    let r = creation_result(config, path, run);
    assert(creation_outcome(*config, p, answered, r));
    r
}

fn qcow2() -> (s: Option<String>)
    ensures
        s matches Some(f) && f@ == "qcow2"@,
{
    Some(owned(DISK_FORMAT))
}

/// What the file system said of the disk path `path` before creating: whether something
/// exists there, and only then whether it is a directory.
pub open spec fn create_answers(path: Seq<char>, exists: bool, is_dir: bool) -> bool {
    &&& answered_exists(path, exists)
    &&& if exists {
        answered_is_dir(path, is_dir)
    } else {
        !is_dir
    }
}

/// What the file system said of the disk path `path` for its status: whether something
/// exists there, and only then whether it is a regular file.
pub open spec fn status_answers(path: Seq<char>, exists: bool, is_file: bool) -> bool {
    &&& answered_exists(path, exists)
    &&& if exists {
        answered_is_file(path, is_file)
    } else {
        !is_file
    }
}

impl DiskManager for QemuDiskManager {
    /// Creates the disk image with `qemu-img`, unless a file is already at the disk path:
    /// an existing image is reported ready and never overwritten; a directory there is
    /// refused.
    fn create_disk<H: DiskHost>(
        &self,
        config: &VmConfiguration,
        dirs: &SearchDirs,
        host: &mut QemuImgHost<H>,
    ) -> (r: Result<DiskStatus, CommandError>)
        ensures
            exists|exists: bool, is_dir: bool|
                #[trigger] disk_create_outcome(
                    *config,
                    exists,
                    is_dir,
                    *dirs,
                    r,
                    old(host).runs(),
                    final(host).runs(),
                ),
            disk_path_of(*config) matches Ok(p) ==> exists|exists: bool, is_dir: bool|
                create_answers(p, exists, is_dir) && #[trigger] disk_create_outcome(
                    *config,
                    exists,
                    is_dir,
                    *dirs,
                    r,
                    old(host).runs(),
                    final(host).runs(),
                ),
    {
        let path = match disk_path_or_error(config) {
            Ok(p) => p,
            Err(e) => {
                let r = Err(e);
                assert(disk_create_outcome(*config, false, false, *dirs, r, old(host).runs(), host.runs()));
                return r;
            },
        };
        let exists = ask_exists(path.as_str());
        let is_dir = exists && ask_is_dir(path.as_str());
        assert(create_answers(path@, exists, is_dir));
        match disk_action(config, exists, is_dir) {
            DiskAction::Refuse(e) => {
                let r = Err(e);
                assert(disk_create_outcome(*config, exists, is_dir, *dirs, r, old(host).runs(), host.runs()));
                r
            },
            DiskAction::UseExisting(s) => {
                let r = Ok(s);
                assert(disk_create_outcome(*config, exists, is_dir, *dirs, r, old(host).runs(), host.runs()));
                r
            },
            DiskAction::Create(path, arguments) => {
                let settings = AppSettings::default();
                let found = find_qemu_img(&settings, dirs);
                assert(opt_string_view(settings.qemu_executable_path) == None::<Seq<char>>);
                let qemu_img = match found {
                    Ok(q) => q,
                    Err(e) => {
                        assert(qemu_img_found(None, *dirs, Err(e)));
                        let r = Err(e);
                        assert(disk_create_outcome(*config, exists, is_dir, *dirs, r, old(host).runs(), host.runs()));
                        return r;
                    },
                };
                assert(qemu_img_found(None, *dirs, Ok(qemu_img)));
                let r = create_with_qemu_img(host, config, path, &arguments, &qemu_img);
                let ghost run = choose|run: Result<(bool, Seq<char>), Seq<char>>|
                    #[trigger] creation_outcome(*config, disk_path_of(*config)->Ok_0, run, r);
                assert(created_with(
                    *config,
                    *dirs,
                    disk_path_of(*config)->Ok_0,
                    qemu_img,
                    run,
                    r,
                    old(host).runs(),
                    host.runs(),
                ));
                assert(disk_create_outcome(*config, exists, is_dir, *dirs, r, old(host).runs(), host.runs()));
                r
            },
        }
    }

    /// Reports the disk ready exactly when the file system reports a regular file at the
    /// disk path, not created otherwise.
    fn status(&self, config: &VmConfiguration) -> (r: Result<DiskStatus, CommandError>)
        ensures
            exists|is_file: bool| #[trigger] status_outcome(*config, is_file, r),
            disk_path_of(*config) matches Ok(p) ==> exists|exists: bool, is_file: bool|
                #[trigger] status_answers(p, exists, is_file) && status_outcome(
                    *config,
                    exists && is_file,
                    r,
                ),
    {
        let path = match disk_path_or_error(config) {
            Ok(p) => p,
            Err(e) => {
                let r = Err(e);
                assert(status_outcome(*config, false, r));
                return r;
            },
        };
        let exists = ask_exists(path.as_str());
        let is_file = exists && ask_is_file(path.as_str());
        assert(status_answers(path@, exists, is_file));
        disk_status_from(config, exists && is_file)
    }
}

} // verus!
