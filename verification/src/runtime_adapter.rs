//! The provider-neutral runtime boundary and QEMU discovery.
use vstd::prelude::*;

use crate::files::{answered_is_file, ask_is_file};
use crate::handles::{ProbeHost, ProbeRecord};
use crate::search::{joined_list, join_candidates, qemu_candidate_order, qemu_search_candidates, SearchDirs};
use crate::qemu_command::{
    build_qemu_command_spec as build_spec, built_from, texts, QemuBootMode, QemuCommandSpec,
};
use crate::settings::{
    opt_string_view, outcome, plain_error, AppSettings, CommandError, CommandErrorView,
};
use crate::text::{
    decimal, decimal_string, is_whitespace, lemma_trimmed_slice, owned, trim, trimmed,
};
use crate::vm_config::{configuration_check, VmConfiguration};
use crate::vm_definitions::copy_opt_string;

verus! {

/// Whether a runtime answered an availability check.
#[derive(Clone, Debug)]
pub struct RuntimeAvailability {
    pub available: bool,
    pub runtime: String,
    pub detail: String,
}

/// The kind of virtualization runtime.
#[derive(Clone, Copy, Debug, PartialEq, Eq, Structural)]
pub enum RuntimeType {
    Qemu,
}

/// What is known of a host capability.
#[derive(Clone, Copy, Debug, PartialEq, Eq, Structural)]
pub enum CapabilityState {
    Available,
    Unavailable,
    NotChecked,
    Unsupported,
    Error,
    Unknown,
}

/// A capability state with an explanation for the user.
#[derive(Clone, Debug, PartialEq)]
pub struct CapabilityStatus {
    pub state: CapabilityState,
    pub detail: String,
}

/// One finding of runtime discovery.
#[derive(Clone, Debug, PartialEq)]
pub struct RuntimeDiagnostic {
    pub code: String,
    pub message: String,
}

/// Everything discovery learned of the QEMU runtime on this host.
#[derive(Clone, Debug, PartialEq)]
pub struct RuntimeStatus {
    pub runtime_type: RuntimeType,
    pub availability: CapabilityState,
    pub configured_qemu_path: Option<String>,
    pub detected_qemu_path: Option<String>,
    pub qemu_version: Option<String>,
    pub whpx: CapabilityStatus,
    pub virtualization: CapabilityStatus,
    pub diagnostics: Vec<RuntimeDiagnostic>,
    pub last_checked: String,
}

/// A VM definition as a runtime would register it.
#[derive(Clone, Debug)]
pub struct RuntimeVmDefinition {
    pub id: String,
    pub name: String,
    pub summary: String,
}

impl RuntimeDiagnostic {
    /// A copy of this diagnostic.
    pub fn duplicate(&self) -> (r: RuntimeDiagnostic)
        ensures
            r == *self,
    {
        RuntimeDiagnostic { code: self.code.clone(), message: self.message.clone() }
    }
}

/// A copy of a list of diagnostics.
pub fn copy_diagnostics(v: &Vec<RuntimeDiagnostic>) -> (r: Vec<RuntimeDiagnostic>)
    ensures
        r@ == v@,
{
    let mut r: Vec<RuntimeDiagnostic> = Vec::new();
    let mut i: usize = 0;
    while i < v.len()
        invariant
            i <= v.len(),
            r@ == v@.subrange(0, i as int),
        decreases v.len() - i,
    {
        r.push(v[i].duplicate());
        i = i + 1;
        assert(r@ =~= v@.subrange(0, i as int));
    }
    assert(v@.subrange(0, v.len() as int) =~= v@);
    r
}


// ---------------------------------------------------------------------------------------
// Version text
// ---------------------------------------------------------------------------------------
/// The version comes from the first line that mentions QEMU. For an output whose first
/// line is `line` (no line break in it) followed by `rest`: when `line` mentions QEMU the
/// version is `line` trimmed, whatever `rest` holds; when it does not, the version is
/// that of `rest` alone. An output of that one line gives its trimmed text exactly when
/// it mentions QEMU.
pub proof fn lemma_version_is_first_qemu_line(line: Seq<char>, rest: Seq<char>)
    requires
        forall|i: int| 0 <= i < line.len() ==> #[trigger] line[i] != '\n' && line[i] != '\r',
    ensures
        mentions_qemu(line) ==> qemu_version_of(line + seq!['\n'] + rest) == Some(trimmed(line)),
        !mentions_qemu(line) ==> qemu_version_of(line + seq!['\n'] + rest) == qemu_version_of(
            rest,
        ),
        mentions_qemu(line) ==> qemu_version_of(line) == Some(trimmed(line)),
        !mentions_qemu(line) ==> qemu_version_of(line) is None,
{
    let s = line + seq!['\n'] + rest;
    let k = line.len() as int;
    assert forall|j: int| 0 <= j < k implies s[j] != '\n' by {
        assert(s[j] == line[j]);
    }
    assert(s[k] == '\n');
    lemma_first_newline_at(s, k);
    assert(s.subrange(0, k) =~= line);
    if k > 0 {
        assert(line.last() != '\r');
    }
    assert(first_line(s) == line);
    assert(s.subrange(k + 1, s.len() as int) =~= rest);
    lemma_first_newline_at(line, k);
    assert(line.subrange(0, k) =~= line);
    assert(first_line(line) == line);
    if mentions_qemu(line) {
        lemma_trim_keeps_mention(line);
        let t = trimmed(line);
        let i = choose|i: int|
            0 <= i && i + 4 <= t.len() && #[trigger] is_letter(t[i], 'q', 'Q') && is_letter(
                t[i + 1],
                'e',
                'E',
            ) && is_letter(t[i + 2], 'm', 'M') && is_letter(t[i + 3], 'u', 'U');
        assert(t.len() > 0);
    }
}

/// The position of the first line feed of `s`, or its length when there is none.
pub open spec fn first_newline(s: Seq<char>) -> nat
    decreases s.len(),
{
    if s.len() == 0 {
        0
    } else if s[0] == '\n' {
        0
    } else {
        1 + first_newline(s.drop_first())
    }
}

/// The first line of `s` as `str::lines` yields it: up to the first line feed, without
/// the carriage return of a `\r\n` ending.
pub open spec fn first_line(s: Seq<char>) -> Seq<char> {
    let k = first_newline(s);
    let raw = s.subrange(0, k as int);
    if k < s.len() && raw.len() > 0 && raw.last() == '\r' {
        raw.drop_last()
    } else {
        raw
    }
}

pub open spec fn is_letter(c: char, lower: char, upper: char) -> bool {
    c == lower || c == upper
}

/// `line`, lowercased in ASCII, contains `qemu`.
pub open spec fn mentions_qemu(line: Seq<char>) -> bool {
    exists|i: int|
        0 <= i && i + 4 <= line.len() && #[trigger] is_letter(line[i], 'q', 'Q') && is_letter(
            line[i + 1],
            'e',
            'E',
        ) && is_letter(line[i + 2], 'm', 'M') && is_letter(line[i + 3], 'u', 'U')
}

/// The first line of `s` that mentions QEMU.
pub open spec fn first_qemu_line(s: Seq<char>) -> Option<Seq<char>>
    decreases s.len(),
{
    if s.len() == 0 {
        None
    } else {
        let k = first_newline(s);
        if mentions_qemu(first_line(s)) {
            Some(first_line(s))
        } else if k < s.len() {
            first_qemu_line(s.subrange(k + 1 as int, s.len() as int))
        } else {
            None
        }
    }
}

/// What [`parse_qemu_version`] returns: the first line mentioning QEMU, trimmed, unless
/// that is blank.
pub open spec fn qemu_version_of(output: Seq<char>) -> Option<Seq<char>> {
    match first_qemu_line(output) {
        Some(line) => if trimmed(line).len() > 0 {
            Some(trimmed(line))
        } else {
            None
        },
        None => None,
    }
}

proof fn lemma_first_newline_at(t: Seq<char>, k: int)
    requires
        0 <= k <= t.len(),
        forall|j: int| 0 <= j < k ==> t[j] != '\n',
        k == t.len() || t[k] == '\n',
    ensures
        first_newline(t) == k,
    decreases k,
{
    if k > 0 {
        assert forall|j: int| 0 <= j < k - 1 implies t.drop_first()[j] != '\n' by {
            assert(t.drop_first()[j] == t[j + 1]);
        }
        lemma_first_newline_at(t.drop_first(), k - 1);
    }
}

fn mentions_qemu_text(line: &str) -> (b: bool)
    ensures
        b == mentions_qemu(line@),
{
    let n = line.unicode_len();
    if n < 4 {
        return false;
    }
    let mut i: usize = 0;
    while i <= n - 4
        invariant
            n == line@.len(),
            n >= 4,
            i <= n - 3,
            forall|k: int|
                0 <= k < i ==> !(#[trigger] is_letter(line@[k], 'q', 'Q') && is_letter(
                    line@[k + 1],
                    'e',
                    'E',
                ) && is_letter(line@[k + 2], 'm', 'M') && is_letter(line@[k + 3], 'u', 'U')),
        decreases n - i,
    {
        let a = line.get_char(i);
        let b = line.get_char(i + 1);
        let c = line.get_char(i + 2);
        let d = line.get_char(i + 3);
        if (a == 'q' || a == 'Q') && (b == 'e' || b == 'E') && (c == 'm' || c == 'M') && (d == 'u'
            || d == 'U') {
            assert(is_letter(line@[i as int], 'q', 'Q'));
            return true;
        }
        i = i + 1;
    }
    false
}

/// The version line of `qemu --version` output: the first line that mentions QEMU in
/// any letter case, trimmed; `None` when there is none.
pub fn parse_qemu_version(output: &str) -> (r: Option<String>)
    ensures
        match r {
            Some(v) => qemu_version_of(output@) == Some(v@),
            None => qemu_version_of(output@) is None,
        },
{
    let n = output.unicode_len();
    let ghost s = output@;
    let mut start: usize = 0;
    assert(s.subrange(0, n as int) =~= s);
    while start < n
        invariant
            n == s.len(),
            s == output@,
            start <= n,
            first_qemu_line(s) == first_qemu_line(s.subrange(start as int, n as int)),
        decreases n - start,
    {
        let ghost t = s.subrange(start as int, n as int);
        let mut end: usize = start;
        while end < n
            invariant
                n == s.len(),
                s == output@,
                start <= end <= n,
                forall|j: int| start <= j < end ==> s[j] != '\n',
            ensures
                end == n || s[end as int] == '\n',
            decreases n - end,
        {
            if output.get_char(end) == '\n' {
                break;
            }
            end = end + 1;
        }
        proof {
            assert forall|j: int| 0 <= j < end - start implies t[j] != '\n' by {
                assert(t[j] == s[j + start]);
            }
            if end < n {
                assert(t[end - start] == s[end as int]);
            }
            lemma_first_newline_at(t, end - start);
        }
        let line_end = if end < n && end > start && output.get_char(end - 1) == '\r' {
            end - 1
        } else {
            end
        };
        let line = output.substring_char(start, line_end);
        proof {
            let raw = t.subrange(0, end - start);
            assert(raw =~= s.subrange(start as int, end as int));
            if end < n && end > start && s[end - 1] == '\r' {
                assert(raw.last() == s[end - 1]);
                assert(raw.drop_last() =~= s.subrange(start as int, line_end as int));
            } else {
                if end < n && raw.len() > 0 {
                    assert(raw.last() == s[end - 1]);
                }
            }
            assert(first_line(t) == line@);
        }
        if mentions_qemu_text(line) {
            let version = trim(line);
            if version.unicode_len() == 0 {
                return None;
            }
            return Some(owned(version));
        }
        if end == n {
            return None;
        }
        proof {
            assert(t.subrange(end - start + 1, t.len() as int) =~= s.subrange(end + 1, n as int));
        }
        start = end + 1;
    }
    None
}

// ---------------------------------------------------------------------------------------
// Discovery
// ---------------------------------------------------------------------------------------
/// What discovery needs of the host it runs on. An implementation answers from the real
/// machine; nothing is assumed of its answers.
pub trait QemuHost {
    /// Runs `executable` with `arguments`, each passed on its own, without a shell and
    /// with standard input closed, waiting as [`version_probe_step`] decides; whether
    /// it exited successfully and its standard output, or why that could not be had.
    fn version_output(&self, executable: &str, arguments: &Vec<String>) -> Result<(bool, String), String>;

    /// Seconds since the Unix epoch.
    fn unix_seconds(&self) -> u64;

    /// Whether the host runs Windows.
    fn is_windows(&self) -> bool;
}

pub open spec fn configured_path_invalid() -> (Seq<char>, Seq<char>) {
    (
        "configured_qemu_path_invalid"@,
        "The configured QEMU path is not a regular executable file."@,
    )
}

pub open spec fn qemu_not_found() -> (Seq<char>, Seq<char>) {
    (
        "qemu_not_found"@,
        "QEMU was not detected. Configure a valid executable path or install QEMU in a standard location."@,
    )
}

/// The code and message of each diagnostic.
pub open spec fn diagnostic_texts(d: Seq<RuntimeDiagnostic>) -> Seq<(Seq<char>, Seq<char>)> {
    d.map_values(|x: RuntimeDiagnostic| (x.code@, x.message@))
}

fn push_diagnostic(diagnostics: &mut Vec<RuntimeDiagnostic>, code: &str, message: &str)
    ensures
        diagnostic_texts(final(diagnostics)@) == diagnostic_texts(old(diagnostics)@).push(
            (code@, message@),
        ),
{
    diagnostics.push(RuntimeDiagnostic { code: owned(code), message: owned(message) });
    assert(diagnostic_texts(diagnostics@) =~= diagnostic_texts(old(diagnostics)@).push(
        (code@, message@),
    ));
}

/// Asks the file system whether a candidate executable is a regular file.
fn is_executable_file(path: &str) -> (r: bool)
    ensures
        answered_is_file(path@, r),
{
    ask_is_file(path)
}

/// The choice of the QEMU executable, where `configured` is the configured path,
/// `configured_is_file` what the file system said of it (trimmed), and `answers` what it
/// said of each of `candidates` tried, in order: the trimmed configured path when it is a
/// regular file; otherwise the first candidate found to be one; `None` once every
/// candidate was tried and none was. Every answer is one the file system gave for that
/// path.
pub open spec fn executable_choice(
    configured: Option<Seq<char>>,
    configured_is_file: bool,
    candidates: Seq<Seq<char>>,
    answers: Seq<bool>,
    r: Option<Seq<char>>,
) -> bool {
    &&& (configured matches Some(c) ==> answered_is_file(trimmed(c), configured_is_file))
    &&& forall|k: int|
        0 <= k < answers.len() && k < candidates.len() ==> #[trigger] answered_is_file(
            candidates[k],
            answers[k],
        )
    &&& executable_order(configured, configured_is_file, candidates, answers, r)
}

/// The order of [`executable_choice`], given the answers.
pub open spec fn executable_order(
    configured: Option<Seq<char>>,
    configured_is_file: bool,
    candidates: Seq<Seq<char>>,
    answers: Seq<bool>,
    r: Option<Seq<char>>,
) -> bool {
    if configured is Some && configured_is_file {
        answers.len() == 0 && r == Some(trimmed(configured->0))
    } else {
        let n = answers.len();
        &&& n <= candidates.len()
        &&& forall|k: int| 0 <= k < n - 1 ==> !#[trigger] answers[k]
        &&& match r {
            Some(c) => n > 0 && answers[n - 1] && c == candidates[n - 1],
            None => n == candidates.len() && (n == 0 || !answers[n - 1]),
        }
    }
}

/// The search takes the first candidate that the file system reports as a regular file.
/// A usable configured path is taken as it is, and the file system said it is a regular
/// file. Otherwise a found executable is a candidate of which the file system said it is
/// a regular file, having said of every candidate before it that it is not; and when
/// none is found, the file system said of every candidate that it is not one.
pub proof fn lemma_search_takes_first_regular_file(
    configured: Option<Seq<char>>,
    configured_is_file: bool,
    candidates: Seq<Seq<char>>,
    answers: Seq<bool>,
    r: Option<Seq<char>>,
)
    requires
        executable_choice(configured, configured_is_file, candidates, answers, r),
    ensures
        configured is Some && configured_is_file ==> r == Some(trimmed(configured->0))
            && answered_is_file(trimmed(configured->0), true),
        !(configured is Some && configured_is_file) ==> match r {
            Some(p) => exists|i: int|
                0 <= i < candidates.len() && p == candidates[i] && #[trigger] answered_is_file(
                    candidates[i],
                    true,
                ) && forall|k: int| 0 <= k < i ==> answered_is_file(candidates[k], false),
            None => forall|k: int|
                0 <= k < candidates.len() ==> #[trigger] answered_is_file(candidates[k], false),
        },
{
    if !(configured is Some && configured_is_file) {
        let n = answers.len() as int;
        assert forall|k: int| 0 <= k < n - 1 implies answered_is_file(candidates[k], false) by {
            assert(!answers[k]);
            assert(answered_is_file(candidates[k], answers[k]));
        }
        match r {
            Some(p) => {
                assert(answered_is_file(candidates[n - 1], answers[n - 1]));
                assert(answered_is_file(candidates[n - 1], true));
            },
            None => {
                if n > 0 {
                    assert(answered_is_file(candidates[n - 1], answers[n - 1]));
                }
            },
        }
    }
}

/// The diagnostic a search records: the invalid configured path, when a path was
/// configured and is not a regular file.
pub open spec fn invalid_prefix(configured: Option<Seq<char>>, configured_is_file: bool) -> Seq<
    (Seq<char>, Seq<char>),
> {
    if configured is Some && !configured_is_file {
        seq![configured_path_invalid()]
    } else {
        Seq::empty()
    }
}

/// A search for the QEMU executable: [`executable_choice`], with the diagnostics
/// `before` extended by [`invalid_prefix`] to `after`.
pub open spec fn executable_search(
    configured: Option<Seq<char>>,
    configured_is_file: bool,
    candidates: Seq<Seq<char>>,
    answers: Seq<bool>,
    r: Option<Seq<char>>,
    before: Seq<(Seq<char>, Seq<char>)>,
    after: Seq<(Seq<char>, Seq<char>)>,
) -> bool {
    &&& executable_choice(configured, configured_is_file, candidates, answers, r)
    &&& after == before + invalid_prefix(configured, configured_is_file)
}

/// `candidates` are the QEMU candidates of [`qemu_candidate_order`] in `dirs`, each
/// joined into a path.
pub open spec fn searched_in(dirs: SearchDirs, candidates: Seq<Seq<char>>) -> bool {
    joined_list(
        qemu_candidate_order(texts(dirs.program_files_roots@), texts(dirs.path_dirs@)),
        candidates,
    )
}

/// Finds the QEMU executable: the configured path when it is a regular file (a
/// diagnostic is recorded when it is not), otherwise the first regular file among the
/// standard locations under each Program Files root, then the `PATH` directories.
pub fn find_qemu_executable(
    settings: &AppSettings,
    dirs: &SearchDirs,
    diagnostics: &mut Vec<RuntimeDiagnostic>,
) -> (r: Option<String>)
    ensures
        exists|
            configured_is_file: bool,
            candidates: Seq<Seq<char>>,
            answers: Seq<bool>,
        |
            searched_in(*dirs, candidates) && #[trigger] executable_search(
                opt_string_view(settings.qemu_executable_path),
                configured_is_file,
                candidates,
                answers,
                opt_string_view(r),
                diagnostic_texts(old(diagnostics)@),
                diagnostic_texts(final(diagnostics)@),
            ),
{
    let parts = qemu_search_candidates(&dirs.program_files_roots, &dirs.path_dirs);
    let candidates = join_candidates(&parts);
    let r = choose_qemu_executable(settings, &candidates, diagnostics);
    assert(searched_in(*dirs, texts(candidates@)));
    r
}

/// Chooses the QEMU executable among the configured path and `candidates`, as
/// [`executable_choice`] says, recording the invalid configured path.
pub fn choose_qemu_executable(
    settings: &AppSettings,
    candidates: &Vec<String>,
    diagnostics: &mut Vec<RuntimeDiagnostic>,
) -> (r: Option<String>)
    ensures
        exists|configured_is_file: bool, answers: Seq<bool>|
            #[trigger] executable_search(
                opt_string_view(settings.qemu_executable_path),
                configured_is_file,
                texts(candidates@),
                answers,
                opt_string_view(r),
                diagnostic_texts(old(diagnostics)@),
                diagnostic_texts(final(diagnostics)@),
            ),
{
    let ghost configured = opt_string_view(settings.qemu_executable_path);
    let ghost tried = texts(candidates@);
    let ghost mut configured_is_file = false;
    match &settings.qemu_executable_path {
        Some(configured_path) => {
            let path = trim(configured_path.as_str());
            if is_executable_file(path) {
                let r = Some(owned(path));
                assert(diagnostic_texts(diagnostics@) =~= diagnostic_texts(old(diagnostics)@)
                    + invalid_prefix(configured, true));
                assert(executable_search(
                    configured,
                    true,
                    tried,
                    Seq::empty(),
                    opt_string_view(r),
                    diagnostic_texts(old(diagnostics)@),
                    diagnostic_texts(diagnostics@),
                ));
                return r;
            }
            push_diagnostic(
                diagnostics,
                "configured_qemu_path_invalid",
                "The configured QEMU path is not a regular executable file.",
            );
        },
        None => {},
    }
    assert(diagnostic_texts(diagnostics@) =~= diagnostic_texts(old(diagnostics)@) + invalid_prefix(
        configured,
        false,
    ));
    let ghost mut answers: Seq<bool> = Seq::empty();
    let mut i: usize = 0;
    while i < candidates.len()
        invariant
            i <= candidates@.len(),
            tried == texts(candidates@),
            answers.len() == i,
            forall|k: int| 0 <= k < i ==> !#[trigger] answers[k],
            forall|k: int| 0 <= k < i ==> #[trigger] answered_is_file(tried[k], answers[k]),
            configured matches Some(c) ==> answered_is_file(trimmed(c), false),
            diagnostic_texts(diagnostics@) == diagnostic_texts(old(diagnostics)@) + invalid_prefix(
                configured,
                false,
            ),
            configured == opt_string_view(settings.qemu_executable_path),
        decreases candidates.len() - i,
    {
        let found = is_executable_file(candidates[i].as_str());
        proof {
            assert(tried[i as int] == candidates@[i as int]@);
            answers = answers.push(found);
        }
        if found {
            let r = Some(candidates[i].clone());
            assert(executable_search(
                configured,
                false,
                tried,
                answers,
                opt_string_view(r),
                diagnostic_texts(old(diagnostics)@),
                diagnostic_texts(diagnostics@),
            ));
            return r;
        }
        i = i + 1;
    }
    assert(executable_search(
        configured,
        false,
        tried,
        answers,
        None,
        diagnostic_texts(old(diagnostics)@),
        diagnostic_texts(diagnostics@),
    ));
    None
}

/// The texts of a result whose value and error are both strings.
pub open spec fn text_result(r: Result<String, String>) -> Result<Seq<char>, Seq<char>> {
    match r {
        Ok(v) => Ok(v@),
        Err(e) => Err(e@),
    }
}

/// What a version query leads to once the host answered `answer`, the output of
/// `--version` or why it could not be had: the version line of the output, the
/// unrecognized-version error when it has none, or the host's reason unchanged.
pub open spec fn version_result(answer: Result<Seq<char>, Seq<char>>) -> Result<Seq<char>, Seq<char>> {
    match answer {
        Ok(out) => match qemu_version_of(out) {
            Some(v) => Ok(v),
            None => Err("QEMU returned an unrecognized version."@),
        },
        Err(why) => Err(why),
    }
}

/// The longest wait for an answer to the version query.
pub const VERSION_TIMEOUT_MILLIS: u64 = 2000;

/// The pause between two polls of the version query.
pub const VERSION_POLL_INTERVAL_MILLIS: u64 = 10;

/// What to do next while waiting for the version query.
#[derive(Debug, PartialEq, Eq)]
pub enum ProbeStep {
    /// The process exited: read its output.
    Finished,
    /// The process still runs: sleep this many milliseconds and poll again.
    Sleep(u64),
    /// Kill the process and give up with this reason.
    Abandon(String),
}

/// [`version_probe_step`]'s answer after `elapsed_millis`, where `poll` is `Some(true)`
/// once the process exited, `Some(false)` while it runs, and `None` when the poll failed.
pub open spec fn probe_step_fits(elapsed_millis: nat, poll: Option<bool>, r: ProbeStep) -> bool {
    match poll {
        Some(true) => r == ProbeStep::Finished,
        Some(false) => if elapsed_millis >= VERSION_TIMEOUT_MILLIS {
            r matches ProbeStep::Abandon(m) && m@ == "QEMU version detection timed out."@
        } else {
            r == ProbeStep::Sleep(VERSION_POLL_INTERVAL_MILLIS)
        },
        None => r matches ProbeStep::Abandon(m) && m@
            == "QEMU version detection could not be completed."@,
    }
}

/// Decides the next step of the version query: read the output once the process exited;
/// give up after [`VERSION_TIMEOUT_MILLIS`] or when a poll fails; otherwise wait
/// [`VERSION_POLL_INTERVAL_MILLIS`] and poll again.
pub fn version_probe_step(elapsed_millis: u64, poll: Option<bool>) -> (r: ProbeStep)
    ensures
        probe_step_fits(elapsed_millis as nat, poll, r),
{
    match poll {
        Some(true) => ProbeStep::Finished,
        Some(false) => if elapsed_millis >= VERSION_TIMEOUT_MILLIS {
            ProbeStep::Abandon(owned("QEMU version detection timed out."))
        } else {
            ProbeStep::Sleep(VERSION_POLL_INTERVAL_MILLIS)
        },
        None => ProbeStep::Abandon(owned("QEMU version detection could not be completed.")),
    }
}

/// What a version query that ran leads to: a process that did not exit successfully was
/// rejected; otherwise [`version_result`] of its output.
pub open spec fn output_result(success: bool, out: Seq<char>) -> Result<Seq<char>, Seq<char>> {
    if success {
        version_result(Ok(out))
    } else {
        Err("QEMU rejected the version query."@)
    }
}

/// What the host's answer to a version query leads to: [`output_result`] once the query
/// ran, the host's reason otherwise.
pub open spec fn probe_result(answer: Result<(bool, Seq<char>), Seq<char>>) -> Result<
    Seq<char>,
    Seq<char>,
> {
    match answer {
        Ok((success, out)) => output_result(success, out),
        Err(why) => Err(why),
    }
}

/// The version, or why there is none, from the exit and standard output of the version
/// query, as [`output_result`] says.
pub fn version_from_output(success: bool, stdout: &str) -> (r: Result<String, String>)
    ensures
        text_result(r) == output_result(success, stdout@),
{
    if !success {
        return Err(owned("QEMU rejected the version query."));
    }
    match parse_qemu_version(stdout) {
        Some(v) => Ok(v),
        None => Err(owned("QEMU returned an unrecognized version.")),
    }
}

/// The arguments of the version query: `--version`, alone.
pub open spec fn version_arguments() -> Seq<Seq<char>> {
    seq!["--version"@]
}

/// Asks the host to run `path --version` once and extracts the version line: the query
/// is recorded in the host's probes, and the result is [`probe_result`] of its answer.
pub fn detect_qemu_version<H: QemuHost>(host: &mut ProbeHost<H>, path: &str) -> (r: Result<
    String,
    String,
>)
    ensures
        final(host).probes().len() == old(host).probes().len() + 1,
        final(host).probes().drop_last() == old(host).probes(),
        final(host).probes().last().0 == path@,
        final(host).probes().last().1 == version_arguments(),
        text_result(r) == probe_result(final(host).probes().last().2),
        r matches Ok(v) ==> exists|out: Seq<char>| qemu_version_of(out) == Some(v@),
        r matches Ok(v) ==> mentions_qemu(v@),
{
    let arguments = vec![owned("--version")];
    proof {
        reveal_strlit("--version");
        assert(texts(arguments@) =~= version_arguments());
    }
    let answer = host.version_output(path, &arguments);
    let r = match answer {
        Ok((success, text)) => {
            let r = version_from_output(success, text.as_str());
            proof {
                lemma_version_mentions_qemu(text@);
            }
            r
        },
        Err(message) => Err(message),
    };
    assert(host.probes().drop_last() =~= old(host).probes());
    r
}

/// A parsed version line mentions QEMU.
pub proof fn lemma_version_mentions_qemu(out: Seq<char>)
    ensures
        qemu_version_of(out) matches Some(v) ==> mentions_qemu(v),
    decreases out.len(),
{
    if out.len() > 0 {
        let k = first_newline(out);
        if mentions_qemu(first_line(out)) {
            lemma_trim_keeps_mention(first_line(out));
        } else if k < out.len() {
            lemma_version_mentions_qemu(out.subrange(k + 1 as int, out.len() as int));
        }
    }
}

/// Trimming whitespace keeps a mention of QEMU: its letters are not whitespace.
proof fn lemma_trim_keeps_mention(line: Seq<char>)
    requires
        mentions_qemu(line),
    ensures
        mentions_qemu(trimmed(line)),
{
    let (a, b) = lemma_trimmed_slice(line);
    let i = choose|i: int|
        0 <= i && i + 4 <= line.len() && #[trigger] is_letter(line[i], 'q', 'Q') && is_letter(
            line[i + 1],
            'e',
            'E',
        ) && is_letter(line[i + 2], 'm', 'M') && is_letter(line[i + 3], 'u', 'U');
    if i < a {
        assert(is_whitespace(line[i]));
    }
    if i + 3 >= b {
        assert(is_whitespace(line[i + 3]));
    }
    let t = trimmed(line);
    assert(t[i - a] == line[i]);
    assert(t[i - a + 1] == line[i + 1]);
    assert(t[i - a + 2] == line[i + 2]);
    assert(t[i - a + 3] == line[i + 3]);
    assert(is_letter(t[i - a], 'q', 'Q'));
}

/// The WHPX and CPU virtualization statuses: unknown on Windows, where detection is not
/// implemented, and unsupported elsewhere.
pub fn platform_diagnostics(is_windows: bool) -> (r: (CapabilityStatus, CapabilityStatus))
    ensures
        is_windows ==> r.0.state == CapabilityState::Unknown && r.1.state
            == CapabilityState::Unknown && r.0.detail@
            == "WHPX availability requires host capability detection that is not implemented yet."@
            && r.1.detail@
            == "CPU virtualization support could not be determined safely by this milestone."@,
        !is_windows ==> r.0.state == CapabilityState::Unsupported && r.1.state
            == CapabilityState::Unsupported && r.0.detail@
            == "WHPX diagnostics are supported only on Windows."@ && r.1.detail@
            == "Windows virtualization diagnostics are supported only on Windows."@,
{
    if is_windows {
        (
            CapabilityStatus {
                state: CapabilityState::Unknown,
                detail: owned(
                    "WHPX availability requires host capability detection that is not implemented yet.",
                ),
            },
            CapabilityStatus {
                state: CapabilityState::Unknown,
                detail: owned(
                    "CPU virtualization support could not be determined safely by this milestone.",
                ),
            },
        )
    } else {
        (
            CapabilityStatus {
                state: CapabilityState::Unsupported,
                detail: owned("WHPX diagnostics are supported only on Windows."),
            },
            CapabilityStatus {
                state: CapabilityState::Unsupported,
                detail: owned("Windows virtualization diagnostics are supported only on Windows."),
            },
        )
    }
}

/// The check time as `<seconds>s since UNIX epoch`.
pub open spec fn timestamp_text(secs: nat) -> Seq<char> {
    decimal(secs) + "s since UNIX epoch"@
}

/// `secs` seconds since the Unix epoch as [`timestamp_text`].
pub fn format_timestamp(secs: u64) -> (r: String)
    ensures
        r@ == timestamp_text(secs as nat),
{
    let mut text = decimal_string(secs);
    text.append("s since UNIX epoch");
    text
}

/// The host's clock as [`timestamp_text`].
pub fn current_timestamp<H: QemuHost>(host: &H) -> (r: String)
    ensures
        exists|secs: nat| r@ == timestamp_text(secs),
{
    let secs = host.unix_seconds();
    format_timestamp(secs)
}

/// The diagnostics of a discovery: `prefix` (the invalid configured path, if any), then
/// the version error when the version query failed, then `qemu_not_found` when nothing
/// was found.
pub open spec fn discovery_diagnostics(
    status: RuntimeStatus,
    prefix: Seq<(Seq<char>, Seq<char>)>,
    version_message: Seq<char>,
) -> bool {
    diagnostic_texts(status.diagnostics@) == prefix + (if status.availability
        == CapabilityState::Error {
        seq![("qemu_version_error"@, version_message)]
    } else {
        Seq::empty()
    }) + (if status.availability == CapabilityState::Unavailable {
        seq![qemu_not_found()]
    } else {
        Seq::empty()
    })
}

/// The detected path of a discovery and its diagnostics, for these answers of the file
/// system and of the host: the executable search of [`executable_choice`], and its
/// diagnostic followed by those of [`discovery_diagnostics`].
pub open spec fn discovery_found(
    settings: AppSettings,
    dirs: SearchDirs,
    status: RuntimeStatus,
    configured_is_file: bool,
    candidates: Seq<Seq<char>>,
    answers: Seq<bool>,
    version_message: Seq<char>,
    probes_before: Seq<ProbeRecord>,
    probes_after: Seq<ProbeRecord>,
) -> bool {
    let configured = opt_string_view(settings.qemu_executable_path);
    &&& searched_in(dirs, candidates)
    &&& discovery_probed(status, probes_before, probes_after)
    &&& (status.availability == CapabilityState::Error ==> Err::<Seq<char>, Seq<char>>(
        version_message,
    ) == probe_result(probes_after.last().2))
    &&& executable_choice(
        configured,
        configured_is_file,
        candidates,
        answers,
        opt_string_view(status.detected_qemu_path),
    )
    &&& discovery_diagnostics(status, invalid_prefix(configured, configured_is_file), version_message)
}

/// The version query of a discovery: none when nothing was detected; otherwise one query
/// of the detected executable with `--version`, whose result decides availability:
/// available with the version line when it gave one, an error otherwise.
pub open spec fn discovery_probed(
    status: RuntimeStatus,
    before: Seq<ProbeRecord>,
    after: Seq<ProbeRecord>,
) -> bool {
    match status.detected_qemu_path {
        None => after == before && status.availability == CapabilityState::Unavailable,
        Some(c) => {
            &&& after.len() == before.len() + 1
            &&& after.drop_last() == before
            &&& after.last().0 == c@
            &&& after.last().1 == version_arguments()
            &&& match probe_result(after.last().2) {
                Ok(v) => status.availability == CapabilityState::Available && status.qemu_version
                    is Some && status.qemu_version->0@ == v,
                Err(_) => status.availability == CapabilityState::Error && status.qemu_version
                    is None,
            }
        },
    }
}

/// What every discovery reports, whatever the host answered; `before` and `after` are
/// the host's version queries.
pub open spec fn discovery_report(
    settings: AppSettings,
    dirs: SearchDirs,
    status: RuntimeStatus,
    before: Seq<ProbeRecord>,
    after: Seq<ProbeRecord>,
) -> bool {
    &&& status.runtime_type == RuntimeType::Qemu
    &&& opt_string_view(status.configured_qemu_path) == opt_string_view(settings.qemu_executable_path)
    &&& status.availability == CapabilityState::Available || status.availability
        == CapabilityState::Unavailable || status.availability == CapabilityState::Error
    &&& (status.detected_qemu_path is None <==> status.availability == CapabilityState::Unavailable)
    &&& (status.qemu_version is Some <==> status.availability == CapabilityState::Available)
    &&& (status.qemu_version matches Some(v) ==> mentions_qemu(v@))
    &&& exists|
        configured_is_file: bool,
        candidates: Seq<Seq<char>>,
        answers: Seq<bool>,
        message: Seq<char>,
    | #[trigger] discovery_found(
        settings,
        dirs,
        status,
        configured_is_file,
        candidates,
        answers,
        message,
        before,
        after,
    )
    &&& (status.whpx.state == CapabilityState::Unknown && status.virtualization.state
        == CapabilityState::Unknown) || (status.whpx.state == CapabilityState::Unsupported
        && status.virtualization.state == CapabilityState::Unsupported)
    &&& exists|secs: nat| status.last_checked@ == timestamp_text(secs)
}

/// Discovers QEMU: the configured path, then the standard locations and the `PATH`
/// directories of `dirs`; queries the version of what was found; reports platform
/// capabilities and the check time. QEMU is reported available only when an executable
/// was found and answered with a version line.
pub fn discover_qemu_capabilities<H: QemuHost>(
    settings: &AppSettings,
    dirs: &SearchDirs,
    host: &mut ProbeHost<H>,
) -> (r: Result<RuntimeStatus, CommandError>)
    ensures
        r matches Ok(status) && discovery_report(
            *settings,
            *dirs,
            status,
            old(host).probes(),
            final(host).probes(),
        ),
{
    let mut diagnostics: Vec<RuntimeDiagnostic> = Vec::new();
    let ghost before = diagnostic_texts(diagnostics@);
    assert(before =~= Seq::<(Seq<char>, Seq<char>)>::empty());
    let candidate = find_qemu_executable(settings, dirs, &mut diagnostics);
    let ghost configured = opt_string_view(settings.qemu_executable_path);
    let ghost (configured_is_file, candidates, answers) = choose|
        configured_is_file: bool,
        candidates: Seq<Seq<char>>,
        answers: Seq<bool>,
    |
        searched_in(*dirs, candidates) && #[trigger] executable_search(
            configured,
            configured_is_file,
            candidates,
            answers,
            opt_string_view(candidate),
            before,
            diagnostic_texts(diagnostics@),
        );
    let ghost prefix = diagnostic_texts(diagnostics@);
    assert(prefix =~= invalid_prefix(configured, configured_is_file));
    let ghost mut message = Seq::<char>::empty();
    let (availability, qemu_version) = match &candidate {
        Some(path) => match detect_qemu_version(host, path.as_str()) {
            Ok(version) => (CapabilityState::Available, Some(version)),
            Err(error) => {
                proof {
                    message = error@;
                }
                push_diagnostic(&mut diagnostics, "qemu_version_error", error.as_str());
                (CapabilityState::Error, None)
            },
        },
        None => (CapabilityState::Unavailable, None),
    };
    let (whpx, virtualization) = platform_diagnostics(host.host().is_windows());
    if candidate.is_none() {
        push_diagnostic(
            &mut diagnostics,
            "qemu_not_found",
            "QEMU was not detected. Configure a valid executable path or install QEMU in a standard location.",
        );
    }
    let last_checked = current_timestamp(host.host());
    let status = RuntimeStatus {
        runtime_type: RuntimeType::Qemu,
        availability,
        configured_qemu_path: copy_opt_string(&settings.qemu_executable_path),
        detected_qemu_path: candidate,
        qemu_version,
        whpx,
        virtualization,
        diagnostics,
        last_checked,
    };
    proof {
        assert(diagnostic_texts(status.diagnostics@) =~= prefix + (if status.availability
            == CapabilityState::Error {
            seq![("qemu_version_error"@, message)]
        } else {
            Seq::empty()
        }) + (if status.availability == CapabilityState::Unavailable {
            seq![qemu_not_found()]
        } else {
            Seq::empty()
        }));
        assert(discovery_diagnostics(status, prefix, message));
        assert(discovery_found(
            *settings,
            *dirs,
            status,
            configured_is_file,
            candidates,
            answers,
            message,
            old(host).probes(),
            host.probes(),
        ));
    }
    Ok(status)
}

/// An error for an operation the runtime does not provide yet.
pub fn not_implemented(message: &str) -> (e: CommandError)
    ensures
        e@ == plain_error("not_implemented"@, message@),
{
    CommandError { code: "not_implemented", message: owned(message), field: None }
}

/// The operations every virtualization runtime offers.
pub trait RuntimeAdapter {
    fn check_availability(&self) -> Result<RuntimeAvailability, CommandError>;

    fn discover_capabilities<H: QemuHost>(
        &self,
        settings: &AppSettings,
        dirs: &SearchDirs,
        host: &mut ProbeHost<H>,
    ) -> Result<RuntimeStatus, CommandError>;

    fn build_command_spec(
        &self,
        config: &VmConfiguration,
        status: &RuntimeStatus,
        boot_mode: &QemuBootMode,
    ) -> Result<QemuCommandSpec, CommandError>;

    fn validate_vm_configuration(&self, config: &VmConfiguration) -> Result<(), CommandError>;

    fn create_vm_definition(&self, config: &VmConfiguration) -> Result<
        RuntimeVmDefinition,
        CommandError,
    >;

    fn start_vm(&self, vm_id: &str) -> Result<(), CommandError>;

    fn stop_vm(&self, vm_id: &str) -> Result<(), CommandError>;
}

/// The QEMU runtime: discovery and command construction; lifecycle operations are not
/// provided yet.
pub struct QemuRuntimeAdapter;

impl Default for QemuRuntimeAdapter {
    fn default() -> (r: Self) {
        QemuRuntimeAdapter
    }
}

impl RuntimeAdapter for QemuRuntimeAdapter {
    fn check_availability(&self) -> (r: Result<RuntimeAvailability, CommandError>)
        ensures
            r matches Ok(a) && !a.available && a.runtime@ == "qemu"@ && a.detail@
                == "QEMU runtime detection is not implemented yet."@,
    {
        Ok(
            RuntimeAvailability {
                available: false,
                runtime: owned("qemu"),
                detail: owned("QEMU runtime detection is not implemented yet."),
            },
        )
    }

    fn discover_capabilities<H: QemuHost>(
        &self,
        settings: &AppSettings,
        dirs: &SearchDirs,
        host: &mut ProbeHost<H>,
    ) -> (r: Result<RuntimeStatus, CommandError>)
        ensures
            r matches Ok(status) && discovery_report(
                *settings,
                *dirs,
                status,
                old(host).probes(),
                final(host).probes(),
            ),
    {
        discover_qemu_capabilities(settings, dirs, host)
    }

    fn build_command_spec(
        &self,
        config: &VmConfiguration,
        status: &RuntimeStatus,
        boot_mode: &QemuBootMode,
    ) -> (r: Result<QemuCommandSpec, CommandError>)
        ensures
            exists|disk_is_file: bool, executable_is_file: bool, windows: bool|
                #[trigger] built_from(
                    r,
                    *config,
                    *status,
                    *boot_mode,
                    disk_is_file,
                    executable_is_file,
                    windows,
                ),
    {
        build_spec(config, status, boot_mode)
    }

    fn validate_vm_configuration(&self, config: &VmConfiguration) -> (r: Result<(), CommandError>)
        ensures
            exists|windows: bool| outcome(r) == #[trigger] configuration_check(*config, windows),
    {
        config.validate()
    }

    fn create_vm_definition(&self, config: &VmConfiguration) -> (r: Result<
        RuntimeVmDefinition,
        CommandError,
    >)
        ensures
            exists|windows: bool|
                r matches Err(e) && if #[trigger] configuration_check(*config, windows) is Err {
                    Err::<(), CommandErrorView>(e@) == configuration_check(*config, windows)
                } else {
                    e@ == plain_error(
                        "not_implemented"@,
                        "Creating VM definitions is not implemented yet."@,
                    )
                },
    {
        self.validate_vm_configuration(config)?;
        Err(not_implemented("Creating VM definitions is not implemented yet."))
    }

    fn start_vm(&self, vm_id: &str) -> (r: Result<(), CommandError>)
        ensures
            r matches Err(e) && e@ == plain_error(
                "not_implemented"@,
                "Starting VMs is not implemented yet."@,
            ),
    {
        Err(not_implemented("Starting VMs is not implemented yet."))
    }

    fn stop_vm(&self, vm_id: &str) -> (r: Result<(), CommandError>)
        ensures
            r matches Err(e) && e@ == plain_error(
                "not_implemented"@,
                "Stopping VMs is not implemented yet."@,
            ),
    {
        Err(not_implemented("Stopping VMs is not implemented yet."))
    }
}

} // verus!
