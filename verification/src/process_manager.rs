//! Controlled QEMU processes: a table of the VMs' processes and the decisions taken on
//! start, status and stop. Launching, polling and killing are asked of a
//! [`ProcessLauncher`] and its [`ManagedChild`] handles; nothing is assumed of their
//! answers.
use vstd::prelude::*;

use crate::handles::{ChildCall, ChildHandle, Launcher};
use crate::files::{ask_is_file, executable_answer};
use crate::qemu_command::{check_qemu_command_spec, command_spec_check, QemuCommandSpec};
use crate::settings::{outcome, plain_error, CommandError, CommandErrorView};
use crate::text::{owned, same_text};

verus! {

/// The most bytes kept of each output stream of a process.
pub const MAX_OUTPUT_BYTES: usize = 65536;

/// How long a stop waits for a process to exit, in milliseconds.
pub const GRACEFUL_STOP_TIMEOUT_MILLIS: u64 = 500;

/// The state of a VM's QEMU process.
#[derive(Clone, Copy, Debug, PartialEq, Eq, Structural)]
pub enum QemuProcessState {
    NotStarted,
    Starting,
    Running,
    Stopping,
    Stopped,
    Failed,
    TimedOut,
    Cancelled,
}

/// Why a QEMU process ended.
#[derive(Clone, Copy, Debug, PartialEq, Eq, Structural)]
pub enum QemuTerminationReason {
    Graceful,
    Forced,
    UnexpectedExit,
    FailedToStart,
    TimedOut,
    Cancelled,
}

/// What a process wrote, as text, and whether some of it was dropped.
#[derive(Clone, Debug, PartialEq)]
pub struct QemuProcessOutput {
    pub stdout: String,
    pub stderr: String,
    pub truncated: bool,
}

impl Default for QemuProcessOutput {
    fn default() -> (o: Self)
        ensures
            o.stdout@.len() == 0 && o.stderr@.len() == 0 && !o.truncated,
    {
        QemuProcessOutput { stdout: String::new(), stderr: String::new(), truncated: false }
    }
}

impl QemuProcessOutput {
    /// A copy of this output.
    pub fn duplicate(&self) -> (r: Self)
        ensures
            r == *self,
    {
        QemuProcessOutput {
            stdout: self.stdout.clone(),
            stderr: self.stderr.clone(),
            truncated: self.truncated,
        }
    }
}

/// The status of a VM's QEMU process as the manager reports it.
#[derive(Clone, Debug, PartialEq)]
pub struct QemuProcessStatus {
    pub vm_id: String,
    pub state: QemuProcessState,
    pub process_id: Option<u32>,
    pub exit_code: Option<i32>,
    pub termination_reason: Option<QemuTerminationReason>,
    pub output: QemuProcessOutput,
}

impl QemuProcessStatus {
    /// A copy of this status.
    pub fn duplicate(&self) -> (r: Self)
        ensures
            r == *self,
    {
        QemuProcessStatus {
            vm_id: self.vm_id.clone(),
            state: self.state,
            process_id: self.process_id,
            exit_code: self.exit_code,
            termination_reason: self.termination_reason,
            output: self.output.duplicate(),
        }
    }
}

/// One append to a buffer holding `bytes`: what still fits of `chunk` is added
/// (`bytes2`), and the buffer is marked truncated (`truncated2`) once something did not
/// fit.
pub open spec fn append_step(
    bytes: Seq<u8>,
    truncated: bool,
    chunk: Seq<u8>,
    bytes2: Seq<u8>,
    truncated2: bool,
) -> bool {
    let room: int = if bytes.len() <= MAX_OUTPUT_BYTES {
        MAX_OUTPUT_BYTES - bytes.len()
    } else {
        0
    };
    let kept = if chunk.len() <= room {
        chunk.len() as int
    } else {
        room
    };
    &&& bytes2 == bytes + chunk.subrange(0, kept)
    &&& truncated2 == (truncated || chunk.len() > room)
}

/// Everything written to a stream, chunk after chunk.
pub open spec fn stream(chunks: Seq<Seq<u8>>) -> Seq<u8>
    decreases chunks.len(),
{
    if chunks.len() == 0 {
        Seq::empty()
    } else {
        stream(chunks.drop_last()) + chunks.last()
    }
}

/// The first [`MAX_OUTPUT_BYTES`] bytes of a stream.
pub open spec fn capped(s: Seq<u8>) -> Seq<u8> {
    if s.len() <= MAX_OUTPUT_BYTES {
        s
    } else {
        s.subrange(0, MAX_OUTPUT_BYTES as int)
    }
}

/// Over a whole stream, appends keep exactly its first 64 KiB: a buffer that holds the
/// capped stream of `chunks`, marked truncated exactly when that stream was longer, holds
/// after one more append the capped stream of `chunks` and `chunk`, truncated exactly
/// when that stream is longer. By induction from the empty buffer, every stream read
/// through [`BoundedBuffer::append`] is kept up to the cap, and the rest is reported
/// dropped.
pub proof fn lemma_appends_keep_stream_prefix(
    chunks: Seq<Seq<u8>>,
    chunk: Seq<u8>,
    bytes: Seq<u8>,
    truncated: bool,
    bytes2: Seq<u8>,
    truncated2: bool,
)
    requires
        bytes == capped(stream(chunks)),
        truncated == (stream(chunks).len() > MAX_OUTPUT_BYTES),
        append_step(bytes, truncated, chunk, bytes2, truncated2),
    ensures
        bytes2 == capped(stream(chunks.push(chunk))),
        truncated2 == (stream(chunks.push(chunk)).len() > MAX_OUTPUT_BYTES),
{
    let s = stream(chunks);
    assert(chunks.push(chunk).drop_last() =~= chunks);
    let t = stream(chunks.push(chunk));
    assert(t == s + chunk);
    if s.len() <= MAX_OUTPUT_BYTES {
        let room = MAX_OUTPUT_BYTES - s.len();
        if chunk.len() <= room {
            assert(chunk.subrange(0, chunk.len() as int) =~= chunk);
        } else {
            assert(bytes2 =~= t.subrange(0, MAX_OUTPUT_BYTES as int));
        }
    } else {
        assert(chunk.subrange(0, 0) =~= Seq::<u8>::empty());
        assert(bytes2 =~= t.subrange(0, MAX_OUTPUT_BYTES as int));
    }
}

/// What a buffer keeps of a whole stream: when `states` are the buffer after each chunk
/// of `chunks`, from the empty buffer on, each one an append of the next chunk to the one
/// before, then every state holds exactly the first 64 KiB of what was written so far,
/// is marked truncated exactly when more than that was written, and never holds more.
pub proof fn lemma_buffer_keeps_stream_prefix(chunks: Seq<Seq<u8>>, states: Seq<(Seq<u8>, bool)>)
    requires
        states.len() == chunks.len() + 1,
        states[0] == (Seq::<u8>::empty(), false),
        forall|i: int|
            0 <= i < chunks.len() ==> #[trigger] append_step(
                states[i].0,
                states[i].1,
                chunks[i],
                states[i + 1].0,
                states[i + 1].1,
            ),
    ensures
        forall|i: int|
            0 <= i < states.len() ==> {
                &&& #[trigger] states[i].0 == capped(stream(chunks.take(i)))
                &&& states[i].1 == (stream(chunks.take(i)).len() > MAX_OUTPUT_BYTES)
                &&& states[i].0.len() <= MAX_OUTPUT_BYTES
            },
{
    assert forall|i: int| 0 <= i < states.len() implies {
        &&& #[trigger] states[i].0 == capped(stream(chunks.take(i)))
        &&& states[i].1 == (stream(chunks.take(i)).len() > MAX_OUTPUT_BYTES)
        &&& states[i].0.len() <= MAX_OUTPUT_BYTES
    } by {
        lemma_state_after(chunks, states, i);
    }
}

/// The state after the first `n` chunks holds the capped stream of those chunks.
proof fn lemma_state_after(chunks: Seq<Seq<u8>>, states: Seq<(Seq<u8>, bool)>, n: int)
    requires
        states.len() == chunks.len() + 1,
        states[0] == (Seq::<u8>::empty(), false),
        forall|i: int|
            0 <= i < chunks.len() ==> #[trigger] append_step(
                states[i].0,
                states[i].1,
                chunks[i],
                states[i + 1].0,
                states[i + 1].1,
            ),
        0 <= n < states.len(),
    ensures
        states[n].0 == capped(stream(chunks.take(n))),
        states[n].1 == (stream(chunks.take(n)).len() > MAX_OUTPUT_BYTES),
        states[n].0.len() <= MAX_OUTPUT_BYTES,
    decreases n,
{
    if n == 0 {
        assert(chunks.take(0) =~= Seq::<Seq<u8>>::empty());
        assert(capped(stream(chunks.take(0))) =~= Seq::<u8>::empty());
    } else {
        lemma_state_after(chunks, states, n - 1);
        let j = n - 1;
        assert(append_step(states[j].0, states[j].1, chunks[j], states[j + 1].0, states[j + 1].1));
        lemma_appends_keep_stream_prefix(
            chunks.take(n - 1),
            chunks[n - 1],
            states[n - 1].0,
            states[n - 1].1,
            states[n].0,
            states[n].1,
        );
        assert(chunks.take(n - 1).push(chunks[n - 1]) =~= chunks.take(n));
    }
}

/// The bytes kept of one output stream.
pub struct BoundedBuffer {
    pub bytes: Vec<u8>,
    pub truncated: bool,
}

impl BoundedBuffer {
    /// An empty buffer.
    pub fn new() -> (b: Self)
        ensures
            b.bytes@.len() == 0,
            !b.truncated,
    {
        BoundedBuffer { bytes: Vec::new(), truncated: false }
    }

    /// Appends what still fits of `chunk`; the rest is dropped and the buffer is marked
    /// truncated.
    pub fn append(&mut self, chunk: &[u8])
        ensures
            append_step(
                old(self).bytes@,
                old(self).truncated,
                chunk@,
                final(self).bytes@,
                final(self).truncated,
            ),
            old(self).bytes@.len() <= MAX_OUTPUT_BYTES ==> final(self).bytes@.len() <= MAX_OUTPUT_BYTES,
    {
        let remaining = MAX_OUTPUT_BYTES.saturating_sub(self.bytes.len());
        let take = if chunk.len() <= remaining {
            chunk.len()
        } else {
            remaining
        };
        let ghost before = self.bytes@;
        let mut i: usize = 0;
        #[verifier::loop_isolation(false)]
        while i < take
            invariant
                take <= chunk@.len(),
                i <= take,
                self.bytes@ == before + chunk@.subrange(0, i as int),
                self.truncated == old(self).truncated,
            decreases take - i,
        {
            self.bytes.push(chunk[i]);
            i = i + 1;
            assert(self.bytes@ =~= before + chunk@.subrange(0, i as int));
        }
        if chunk.len() > remaining {
            self.truncated = true;
        }
    }
}

/// One output stream of a process as it is read: the bytes kept so far, with, as ghost
/// state, every chunk written to it. At every moment it keeps exactly the first 64 KiB of
/// what was written and is marked truncated exactly when more was written.
pub struct OutputCapture {
    buffer: BoundedBuffer,
    written: Ghost<Seq<Seq<u8>>>,
}

impl OutputCapture {
    /// The chunks written so far, in order.
    pub closed spec fn written(&self) -> Seq<Seq<u8>> {
        self.written@
    }

    /// The buffer holds the capped stream of what was written.
    pub closed spec fn wf(&self) -> bool {
        &&& self.buffer.bytes@ == capped(stream(self.written@))
        &&& self.buffer.truncated == (stream(self.written@).len() > MAX_OUTPUT_BYTES)
    }

    /// A capture to which nothing was written yet.
    pub fn new() -> (c: Self)
        ensures
            c.wf(),
            c.written() == Seq::<Seq<u8>>::empty(),
    {
        let c = OutputCapture { buffer: BoundedBuffer::new(), written: Ghost(Seq::empty()) };
        assert(c.buffer.bytes@ =~= capped(stream(c.written@)));
        c
    }

    /// Writes `chunk`: what still fits is kept, the rest is dropped and reported.
    pub fn append(&mut self, chunk: &[u8])
        requires
            old(self).wf(),
        ensures
            final(self).wf(),
            final(self).written() == old(self).written().push(chunk@),
    {
        let ghost w = self.written@;
        let ghost b0 = self.buffer.bytes@;
        let ghost t0 = self.buffer.truncated;
        self.buffer.append(chunk);
        proof {
            lemma_appends_keep_stream_prefix(
                w,
                chunk@,
                b0,
                t0,
                self.buffer.bytes@,
                self.buffer.truncated,
            );
            self.written@ = w.push(chunk@);
        }
    }

    /// The bytes kept: the first 64 KiB of what was written.
    pub fn bytes(&self) -> (r: &Vec<u8>)
        requires
            self.wf(),
        ensures
            r@ == capped(stream(self.written())),
            r@.len() <= MAX_OUTPUT_BYTES,
    {
        &self.buffer.bytes
    }

    /// Whether more was written than was kept.
    pub fn truncated(&self) -> (r: bool)
        requires
            self.wf(),
        ensures
            r == (stream(self.written()).len() > MAX_OUTPUT_BYTES),
    {
        self.buffer.truncated
    }
}

/// A running child process, as the manager sees it.
pub trait ManagedChild {
    /// The operating system's id of the process.
    fn process_id(&self) -> u32;

    /// `Ok(Some(code))` once the process has exited, `Ok(None)` while it runs.
    fn try_wait(&mut self) -> Result<Option<i32>, String>;

    /// Kills the process.
    fn kill(&mut self) -> Result<(), String>;

    /// Asks the process to stop; `Ok(true)` when the request was delivered.
    fn request_graceful_stop(&mut self) -> Result<bool, String>;

    /// What the process wrote so far.
    fn output(&self) -> QemuProcessOutput;

    /// Polls the process until it exits or `timeout_millis` pass; its exit code when it
    /// exited in time.
    fn wait_for_exit(&mut self, timeout_millis: u64) -> Option<i32>;
}

/// Starts processes from command specifications.
pub trait ProcessLauncher {
    type Child: ManagedChild;

    /// Starts the executable of `spec` with its arguments, each passed on its own. Only
    /// a command that passed the launch check, its executable a regular file, is ever
    /// handed over.
    fn launch(&self, spec: &QemuCommandSpec) -> Result<Self::Child, String>
        requires
            command_spec_check(*spec, true) is Ok,
    ;
}

/// The status of a VM's process and, while it runs, the handle to it. Once the handle
/// is released, `released` keeps the calls that were made to the process.
pub struct ProcessEntry<C> {
    pub status: QemuProcessStatus,
    pub child: Option<ChildHandle<C>>,
    pub released: Ghost<Seq<ChildCall>>,
}

/// The calls made to the entry's process: through its handle while it is held, as
/// recorded at release afterwards.
pub open spec fn history<C>(e: ProcessEntry<C>) -> Seq<ChildCall> {
    match e.child {
        Some(h) => h.calls(),
        None => e.released@,
    }
}

pub open spec fn key<C>(e: ProcessEntry<C>) -> Seq<char> {
    e.status.vm_id@
}

/// The entry of the VM `id`, if any.
pub open spec fn entry_for<C>(s: Seq<ProcessEntry<C>>, id: Seq<char>) -> Option<ProcessEntry<C>> {
    if exists|i: int| 0 <= i < s.len() && key(#[trigger] s[i]) == id {
        Some(s[choose|i: int| 0 <= i < s.len() && key(#[trigger] s[i]) == id])
    } else {
        None
    }
}

pub open spec fn keys_distinct<C>(s: Seq<ProcessEntry<C>>) -> bool {
    forall|i: int, j: int| 0 <= i < s.len() && 0 <= j < s.len() && i != j ==> key(s[i]) != key(s[j])
}

/// A process is reported running exactly while the manager holds a handle to it, and no
/// entry rests in a passing state (starting or stopping) or in one that no call gives an
/// entry (not started, cancelled).
pub open spec fn entry_settled<C>(e: ProcessEntry<C>) -> bool {
    &&& e.child is Some <==> e.status.state == QemuProcessState::Running
    &&& e.status.state != QemuProcessState::NotStarted
    &&& e.status.state != QemuProcessState::Cancelled
    &&& e.status.state != QemuProcessState::Starting
    &&& e.status.state != QemuProcessState::Stopping
}

/// The table of processes is well formed: one entry per VM, a handle exactly for the
/// running ones, and none starting or stopping.
pub open spec fn table_wf<C>(s: Seq<ProcessEntry<C>>) -> bool {
    &&& keys_distinct(s)
    &&& forall|i: int| 0 <= i < s.len() ==> entry_settled(#[trigger] s[i])
}

/// No entry but the one of `id` changed.
pub open spec fn others_unchanged<C>(
    before: Seq<ProcessEntry<C>>,
    after: Seq<ProcessEntry<C>>,
    id: Seq<char>,
) -> bool {
    forall|other: Seq<char>| other != id ==> #[trigger] entry_for(after, other) == entry_for(before, other)
}

proof fn lemma_entry_for_index<C>(s: Seq<ProcessEntry<C>>, i: int)
    requires
        keys_distinct(s),
        0 <= i < s.len(),
    ensures
        entry_for(s, key(s[i])) == Some(s[i]),
{
    let j = choose|j: int| 0 <= j < s.len() && key(#[trigger] s[j]) == key(s[i]);
    assert(key(s[j]) == key(s[i]));
}

/// Replacing the entry at `i` by one with the same key changes only what that key finds.
proof fn lemma_entry_for_update<C>(s: Seq<ProcessEntry<C>>, i: int, e: ProcessEntry<C>, id: Seq<char>)
    requires
        keys_distinct(s),
        0 <= i < s.len(),
        key(e) == key(s[i]),
    ensures
        keys_distinct(s.update(i, e)),
        entry_for(s.update(i, e), id) == if id == key(e) {
            Some(e)
        } else {
            entry_for(s, id)
        },
{
    let t = s.update(i, e);
    assert forall|a: int, b: int| 0 <= a < t.len() && 0 <= b < t.len() && a != b implies key(t[a]) != key(t[b]) by {
        assert(key(t[a]) == key(s[a]));
        assert(key(t[b]) == key(s[b]));
    }
    if id == key(e) {
        lemma_entry_for_index(t, i);
    } else {
        assert forall|k: int| 0 <= k < s.len() implies (key(#[trigger] t[k]) == id <==> key(s[k]) == id) by {}
        if exists|k: int| 0 <= k < s.len() && key(#[trigger] s[k]) == id {
            let k = choose|k: int| 0 <= k < s.len() && key(#[trigger] s[k]) == id;
            assert(key(t[k]) == id);
            lemma_entry_for_index(s, k);
            lemma_entry_for_index(t, k);
            assert(t[k] == s[k]);
        }
    }
}

/// Removing the entry at `i` removes only what its key finds.
proof fn lemma_entry_for_remove<C>(s: Seq<ProcessEntry<C>>, i: int, id: Seq<char>)
    requires
        keys_distinct(s),
        0 <= i < s.len(),
    ensures
        keys_distinct(s.remove(i)),
        entry_for(s.remove(i), id) == if id == key(s[i]) {
            None
        } else {
            entry_for(s, id)
        },
{
    let t = s.remove(i);
    assert forall|k: int| 0 <= k < t.len() implies #[trigger] t[k] == (if k < i {
        s[k]
    } else {
        s[k + 1]
    }) by {}
    assert forall|a: int, b: int| 0 <= a < t.len() && 0 <= b < t.len() && a != b implies key(t[a]) != key(t[b]) by {
        let a2 = if a < i { a } else { a + 1 };
        let b2 = if b < i { b } else { b + 1 };
        assert(t[a] == s[a2] && t[b] == s[b2]);
    }
    if id == key(s[i]) {
        assert forall|k: int| 0 <= k < t.len() implies key(#[trigger] t[k]) != id by {
            let k2 = if k < i { k } else { k + 1 };
            assert(t[k] == s[k2]);
        }
    } else {
        if exists|k: int| 0 <= k < s.len() && key(#[trigger] s[k]) == id {
            let k = choose|k: int| 0 <= k < s.len() && key(#[trigger] s[k]) == id;
            lemma_entry_for_index(s, k);
            let k2 = if k < i { k } else { k - 1 };
            assert(t[k2] == s[k]);
            lemma_entry_for_index(t, k2);
        } else {
            assert forall|k: int| 0 <= k < t.len() implies key(#[trigger] t[k]) != id by {
                let k2 = if k < i { k } else { k + 1 };
                assert(t[k] == s[k2]);
            }
        }
    }
}

/// Appending an entry whose key is absent adds only what that key finds.
proof fn lemma_entry_for_push<C>(s: Seq<ProcessEntry<C>>, e: ProcessEntry<C>, id: Seq<char>)
    requires
        keys_distinct(s),
        entry_for(s, key(e)) is None,
    ensures
        keys_distinct(s.push(e)),
        entry_for(s.push(e), id) == if id == key(e) {
            Some(e)
        } else {
            entry_for(s, id)
        },
{
    let t = s.push(e);
    assert forall|a: int, b: int| 0 <= a < t.len() && 0 <= b < t.len() && a != b implies key(t[a]) != key(t[b]) by {
        if a < s.len() {
            assert(t[a] == s[a]);
        }
        if b < s.len() {
            assert(t[b] == s[b]);
        }
    }
    if id == key(e) {
        lemma_entry_for_index(t, s.len() as int);
    } else if exists|k: int| 0 <= k < s.len() && key(#[trigger] s[k]) == id {
        let k = choose|k: int| 0 <= k < s.len() && key(#[trigger] s[k]) == id;
        lemma_entry_for_index(s, k);
        assert(t[k] == s[k]);
        lemma_entry_for_index(t, k);
    } else {
        assert forall|k: int| 0 <= k < t.len() implies key(#[trigger] t[k]) != id by {
            if k < s.len() {
                assert(t[k] == s[k]);
            }
        }
    }
}

/// The index of the entry of the VM `vm_id`.
fn find_entry<C>(entries: &Vec<ProcessEntry<C>>, vm_id: &str) -> (r: Option<usize>)
    requires
        keys_distinct(entries@),
    ensures
        match r {
            Some(i) => i < entries@.len() && key(entries@[i as int]) == vm_id@ && entry_for(
                entries@,
                vm_id@,
            ) == Some(entries@[i as int]),
            None => entry_for(entries@, vm_id@) is None,
        },
{
    let mut i: usize = 0;
    while i < entries.len()
        invariant
            i <= entries@.len(),
            keys_distinct(entries@),
            forall|k: int| 0 <= k < i ==> key(#[trigger] entries@[k]) != vm_id@,
        decreases entries.len() - i,
    {
        if same_text(entries[i].status.vm_id.as_str(), vm_id) {
            proof {
                lemma_entry_for_index(entries@, i as int);
            }
            return Some(i);
        }
        i = i + 1;
    }
    None
}

// ---------------------------------------------------------------------------------------
// Refresh
// ---------------------------------------------------------------------------------------
/// The status after a poll of the process: `poll` is `Some(Some(code))` when it exited,
/// `Some(None)` while it runs, `None` when the poll failed; `out` is its output then.
pub open spec fn after_poll(
    status: QemuProcessStatus,
    poll: Option<Option<i32>>,
    out: QemuProcessOutput,
) -> QemuProcessStatus {
    match poll {
        Some(None) => QemuProcessStatus {
            state: if status.state == QemuProcessState::Starting {
                QemuProcessState::Running
            } else {
                status.state
            },
            output: out,
            ..status
        },
        Some(Some(code)) => QemuProcessStatus {
            output: out,
            exit_code: Some(code),
            state: if code == 0 {
                QemuProcessState::Stopped
            } else {
                QemuProcessState::Failed
            },
            termination_reason: Some(QemuTerminationReason::UnexpectedExit),
            ..status
        },
        None => QemuProcessStatus {
            output: out,
            state: QemuProcessState::Failed,
            termination_reason: Some(QemuTerminationReason::UnexpectedExit),
            ..status
        },
    }
}

/// `e2` is `e` brought up to date: unchanged without a handle; otherwise its process
/// was polled once (the poll recorded in its history), the status follows the poll's
/// answer, and the handle is kept, for the same command, only while the process runs.
pub open spec fn refreshed<C>(e: ProcessEntry<C>, e2: ProcessEntry<C>) -> bool {
    match e.child {
        None => e2 == e,
        Some(h) => exists|poll: Option<Option<i32>>, out: QemuProcessOutput|
            {
                &&& #[trigger] after_poll(e.status, poll, out) == e2.status
                &&& (e2.child is Some <==> poll == Some(None::<i32>))
                &&& history(e2) == history(e).push(ChildCall::Poll(poll))
                &&& (e2.child matches Some(h2) ==> h2.command() == h.command())
            },
    }
}

/// The status after a poll: [`after_poll`] computed.
pub fn apply_poll(
    status: QemuProcessStatus,
    poll: Option<Option<i32>>,
    output: QemuProcessOutput,
) -> (r: QemuProcessStatus)
    ensures
        r == after_poll(status, poll, output),
{
    let mut status = status;
    match poll {
        Some(None) => {
            if matches!(status.state, QemuProcessState::Starting) {
                status.state = QemuProcessState::Running;
            }
            status.output = output;
        },
        Some(Some(exit_code)) => {
            status.output = output;
            status.exit_code = Some(exit_code);
            status.state = if exit_code == 0 {
                QemuProcessState::Stopped
            } else {
                QemuProcessState::Failed
            };
            status.termination_reason = Some(QemuTerminationReason::UnexpectedExit);
        },
        None => {
            status.output = output;
            status.state = QemuProcessState::Failed;
            status.termination_reason = Some(QemuTerminationReason::UnexpectedExit);
        },
    }
    status
}

/// Polls the process of an entry and records what was learned: the status becomes
/// [`apply_poll`] of the poll's answer and the output read then, and the handle is kept
/// only while the process runs.
pub fn refresh_entry<C: ManagedChild>(entry: &mut ProcessEntry<C>)
    ensures
        refreshed(*old(entry), *final(entry)),
{
    let taken = entry.child.take();
    match taken {
        None => {},
        Some(mut child) => {
            let poll: Option<Option<i32>> = match child.try_wait() {
                Ok(p) => Some(p),
                Err(_) => None,
            };
            let output = child.output();
            let status = entry.status.duplicate();
            entry.status = apply_poll(status, poll, output);
            if matches!(poll, Some(None)) {
                entry.child = Some(child);
            } else {
                entry.released = Ghost(child.calls());
            }
            assert(after_poll(old(entry).status, poll, output) == entry.status);
        },
    }
}

/// A copy of the status of an entry.
pub fn snapshot_entry<C>(entry: &ProcessEntry<C>) -> (s: QemuProcessStatus)
    ensures
        s == entry.status,
{
    entry.status.duplicate()
}

// ---------------------------------------------------------------------------------------
// The manager
// ---------------------------------------------------------------------------------------
/// The processes of the VMs, started through `launcher`.
pub struct QemuProcessManager<L: ProcessLauncher> {
    pub launcher: Launcher<L>,
    pub processes: Vec<ProcessEntry<L::Child>>,
}

/// A state in which a process may still be alive.
pub open spec fn is_active(state: QemuProcessState) -> bool {
    state == QemuProcessState::Starting || state == QemuProcessState::Running || state
        == QemuProcessState::Stopping
}

/// The status of a VM without a process.
pub open spec fn idle_status(s: QemuProcessStatus, vm_id: Seq<char>, state: QemuProcessState) -> bool {
    &&& s.vm_id@ == vm_id
    &&& s.state == state
    &&& s.process_id is None
    &&& s.exit_code is None
    &&& s.termination_reason is None
    &&& s.output.stdout@.len() == 0 && s.output.stderr@.len() == 0 && !s.output.truncated
}

pub open spec fn already_active() -> CommandErrorView {
    plain_error("conflict"@, "A QEMU process is already active for this VM."@)
}

pub open spec fn exited_early() -> CommandErrorView {
    plain_error("runtime_error"@, "QEMU exited before it could become running."@)
}

/// The launcher's answer as text: the new process's id, or why it could not start.
pub open spec fn launch_view(launch: Result<u32, String>) -> Result<u32, Seq<char>> {
    match launch {
        Ok(pid) => Ok(pid),
        Err(m) => Err(m@),
    }
}

/// The first poll's answer as text: the exit code once exited, `None` while running, or
/// why the poll failed.
pub open spec fn poll_view(poll: Result<Option<i32>, String>) -> Result<Option<i32>, Seq<char>> {
    match poll {
        Ok(p) => Ok(p),
        Err(m) => Err(m@),
    }
}

/// A status result with its error as a view.
pub open spec fn status_result_view(r: Result<QemuProcessStatus, CommandError>) -> Result<
    QemuProcessStatus,
    CommandErrorView,
> {
    match r {
        Ok(s) => Ok(s),
        Err(e) => Err(e@),
    }
}

/// The entry a launch leaves for the VM `vm_id`, given the launcher's answer `launch`,
/// the answer `poll` of the first poll of the new process and its output `out`: none
/// when the launch or the poll failed; a running entry while the process runs; a failed
/// one when it already exited.
pub open spec fn launch_entry(
    vm_id: String,
    launch: Result<u32, Seq<char>>,
    poll: Result<Option<i32>, Seq<char>>,
    out: QemuProcessOutput,
) -> Option<QemuProcessStatus> {
    match launch {
        Err(_) => None,
        Ok(pid) => match poll {
            Ok(None) => Some(
                QemuProcessStatus {
                    vm_id,
                    state: QemuProcessState::Running,
                    process_id: Some(pid),
                    exit_code: None,
                    termination_reason: None,
                    output: out,
                },
            ),
            Ok(Some(code)) => Some(
                QemuProcessStatus {
                    vm_id,
                    state: QemuProcessState::Failed,
                    process_id: Some(pid),
                    exit_code: Some(code),
                    termination_reason: Some(QemuTerminationReason::UnexpectedExit),
                    output: out,
                },
            ),
            Err(_) => None,
        },
    }
}

/// What a start answers, given the same answers as [`launch_entry`]: the running status,
/// or why the process is not running.
pub open spec fn launch_answer(
    vm_id: String,
    launch: Result<u32, Seq<char>>,
    poll: Result<Option<i32>, Seq<char>>,
    out: QemuProcessOutput,
) -> Result<QemuProcessStatus, CommandErrorView> {
    match launch {
        Err(m) => Err(plain_error("runtime_error"@, "QEMU could not be started: "@ + m)),
        Ok(_) => match poll {
            Ok(None) => Ok(launch_entry(vm_id, launch, poll, out)->0),
            Ok(Some(_)) => Err(exited_early()),
            Err(m) => Err(
                plain_error("runtime_error"@, "QEMU process status could not be checked: "@ + m),
            ),
        },
    }
}

/// The entry and the answer of a start, from the launcher's answer, the first poll and
/// the output then: [`launch_entry`] and [`launch_answer`] computed.
pub fn launch_decision(
    vm_id: &String,
    launch: Result<u32, String>,
    poll: Result<Option<i32>, String>,
    out: QemuProcessOutput,
) -> (r: (Option<QemuProcessStatus>, Result<QemuProcessStatus, CommandError>))
    ensures
        r.0 == launch_entry(*vm_id, launch_view(launch), poll_view(poll), out),
        status_result_view(r.1) == launch_answer(*vm_id, launch_view(launch), poll_view(poll), out),
{
    match launch {
        Err(m) => {
            let mut message = owned("QEMU could not be started: ");
            message.append(m.as_str());
            (None, Err(CommandError::runtime(message.as_str())))
        },
        Ok(pid) => match poll {
            Ok(None) => {
                let status = QemuProcessStatus {
                    vm_id: vm_id.clone(),
                    state: QemuProcessState::Running,
                    process_id: Some(pid),
                    exit_code: None,
                    termination_reason: None,
                    output: out,
                };
                let answer = status.duplicate();
                (Some(status), Ok(answer))
            },
            Ok(Some(code)) => (
                Some(
                    QemuProcessStatus {
                        vm_id: vm_id.clone(),
                        state: QemuProcessState::Failed,
                        process_id: Some(pid),
                        exit_code: Some(code),
                        termination_reason: Some(QemuTerminationReason::UnexpectedExit),
                        output: out,
                    },
                ),
                Err(CommandError::runtime("QEMU exited before it could become running.")),
            ),
            Err(m) => {
                let mut message = owned("QEMU process status could not be checked: ");
                message.append(m.as_str());
                (None, Err(CommandError::runtime(message.as_str())))
            },
        },
    }
}

/// `after` and `r` are what a launch of `spec` leaves, for these answers: the VM's entry
/// is [`launch_entry`] (with the process handle exactly when it runs), the answer is
/// [`launch_answer`], and the output of a running process starts empty.
pub open spec fn launch_fits<C>(
    spec: QemuCommandSpec,
    after: Seq<ProcessEntry<C>>,
    r: Result<QemuProcessStatus, CommandError>,
    launch: Result<u32, Seq<char>>,
    poll: Result<Option<i32>, Seq<char>>,
    out: QemuProcessOutput,
) -> bool {
    &&& status_result_view(r) == launch_answer(spec.vm_id, launch, poll, out)
    &&& poll == Ok::<Option<i32>, Seq<char>>(None) ==> out.stdout@.len() == 0
        && out.stderr@.len() == 0 && !out.truncated
    &&& match launch_entry(spec.vm_id, launch, poll, out) {
        None => entry_for(after, spec.vm_id@) is None,
        Some(st) => entry_for(after, spec.vm_id@) matches Some(e) && launched_entry(
            e,
            st,
            spec,
            launch->Ok_0,
            poll,
        ),
    }
}

/// The answer of a poll as its call records it: `None` when the poll failed.
pub open spec fn poll_answer(poll: Result<Option<i32>, Seq<char>>) -> Option<Option<i32>> {
    match poll {
        Ok(p) => Some(p),
        Err(_) => None,
    }
}

/// The entry `e` that a launch left: status `st`; the handle, for the command `spec`,
/// exactly while the process runs; and the two calls made to the new process, asking
/// its id (`pid`) and polling it once.
pub open spec fn launched_entry<C>(
    e: ProcessEntry<C>,
    st: QemuProcessStatus,
    spec: QemuCommandSpec,
    pid: u32,
    poll: Result<Option<i32>, Seq<char>>,
) -> bool {
    &&& e.status == st
    &&& (e.child is Some <==> st.state == QemuProcessState::Running)
    &&& history(e) == seq![ChildCall::ProcessId(pid), ChildCall::Poll(poll_answer(poll))]
    &&& (e.child matches Some(h) ==> h.command() == spec)
}

/// What a start leads to once the command was accepted and no process of the VM was
/// active: for some answers of the launcher and of the first poll, what
/// [`launch_fits`] says.
pub open spec fn launch_outcome<C>(
    spec: QemuCommandSpec,
    after: Seq<ProcessEntry<C>>,
    r: Result<QemuProcessStatus, CommandError>,
) -> bool {
    exists|
        launch: Result<u32, Seq<char>>,
        poll: Result<Option<i32>, Seq<char>>,
        out: QemuProcessOutput,
    | #[trigger] launch_fits(spec, after, r, launch, poll, out)
}

/// What [`QemuProcessManager::start`] does, where `executable_is_file` is what the file
/// system said of the command's executable.
pub open spec fn start_outcome<C>(
    spec: QemuCommandSpec,
    executable_is_file: bool,
    before: Seq<ProcessEntry<C>>,
    after: Seq<ProcessEntry<C>>,
    r: Result<QemuProcessStatus, CommandError>,
    launched_before: Seq<QemuCommandSpec>,
    launched_after: Seq<QemuCommandSpec>,
) -> bool {
    let id = spec.vm_id@;
    if command_spec_check(spec, executable_is_file) is Err {
        &&& after == before
        &&& launched_after == launched_before
        &&& r matches Err(e) && Err::<(), CommandErrorView>(e@) == command_spec_check(
            spec,
            executable_is_file,
        )
    } else if entry_for(before, id) matches Some(e) && is_active(e.status.state) {
        &&& after == before
        &&& launched_after == launched_before
        &&& r matches Err(e) && e@ == already_active()
    } else {
        &&& launched_after == launched_before.push(spec)
        &&& others_unchanged(before, after, id)
        &&& launch_outcome(spec, after, r)
    }
}

/// A stop of the entry `e0`: it is refreshed to `e1`; if the process still ran, it was
/// stopped, gracefully or by force, or timed out; the handle is released.
pub open spec fn stop_step<C>(e0: ProcessEntry<C>, e1: ProcessEntry<C>, e2: ProcessEntry<C>) -> bool {
    &&& refreshed(e0, e1)
    &&& e2.child is None
    &&& e1.child is None ==> e2 == e1
    &&& e1.child is Some ==> exists|
        graceful: bool,
        first_wait: Option<i32>,
        killed: bool,
        second_wait: Option<i32>,
    | #[trigger] stop_made(e1, e2, graceful, first_wait, killed, second_wait)
}

/// The calls a stop makes to a running process, given their answers: the graceful stop
/// request; when it was delivered, a wait of [`GRACEFUL_STOP_TIMEOUT_MILLIS`]; unless
/// that wait saw the process exit, a kill and, when the kill succeeded, another such
/// wait.
pub open spec fn stop_calls(
    graceful: bool,
    first_wait: Option<i32>,
    killed: bool,
    second_wait: Option<i32>,
) -> Seq<ChildCall> {
    let waited = if graceful {
        seq![ChildCall::Wait(GRACEFUL_STOP_TIMEOUT_MILLIS, first_wait)]
    } else {
        Seq::empty()
    };
    let forced = if graceful && first_wait is Some {
        Seq::empty()
    } else if killed {
        seq![ChildCall::Kill(true), ChildCall::Wait(GRACEFUL_STOP_TIMEOUT_MILLIS, second_wait)]
    } else {
        seq![ChildCall::Kill(false)]
    };
    seq![ChildCall::GracefulStop(graceful)] + waited + forced
}

/// A stop of the running entry `e1` gave `e2`, for these answers: the calls of
/// [`stop_calls`] were made, in order, and the status is what [`stop_fits`] says of
/// them.
pub open spec fn stop_made<C>(
    e1: ProcessEntry<C>,
    e2: ProcessEntry<C>,
    graceful: bool,
    first_wait: Option<i32>,
    killed: bool,
    second_wait: Option<i32>,
) -> bool {
    &&& history(e2) == history(e1) + stop_calls(graceful, first_wait, killed, second_wait)
    &&& stop_fits(
        e1.status,
        e2.status,
        graceful,
        graceful && first_wait is Some,
        killed,
        killed && second_wait is Some,
    )
}

/// What [`QemuProcessManager::status`] and [`QemuProcessManager::stop`] do to the
/// entry of a VM that has one: it is brought up to date, and the rest of the table is
/// left as it was.
pub open spec fn entry_refreshed<C>(
    before: Seq<ProcessEntry<C>>,
    after: Seq<ProcessEntry<C>>,
    id: Seq<char>,
    e1: ProcessEntry<C>,
) -> bool {
    &&& entry_for(before, id) matches Some(e0) && refreshed(e0, e1)
    &&& entry_for(after, id) == Some(e1)
    &&& others_unchanged(before, after, id)
}

/// The state and termination reason a stop ends in, given whether the graceful stop
/// request was delivered (`graceful`), whether the process exited within the wait that
/// followed it (`exited`), whether the kill succeeded (`killed`) and whether the process
/// exited within the wait after the kill (`exited_after_kill`). A kill is only made when
/// the graceful stop did not end the process.
pub open spec fn stop_result(graceful: bool, exited: bool, killed: bool, exited_after_kill: bool) -> (
    QemuProcessState,
    QemuTerminationReason,
) {
    if graceful && exited {
        (QemuProcessState::Stopped, QemuTerminationReason::Graceful)
    } else if killed && exited_after_kill {
        (QemuProcessState::Stopped, QemuTerminationReason::Forced)
    } else {
        (QemuProcessState::TimedOut, QemuTerminationReason::TimedOut)
    }
}

/// [`stop_result`] computed.
pub fn stop_decision(graceful: bool, exited: bool, killed: bool, exited_after_kill: bool) -> (r: (
    QemuProcessState,
    QemuTerminationReason,
))
    ensures
        r == stop_result(graceful, exited, killed, exited_after_kill),
{
    if graceful && exited {
        (QemuProcessState::Stopped, QemuTerminationReason::Graceful)
    } else if killed && exited_after_kill {
        (QemuProcessState::Stopped, QemuTerminationReason::Forced)
    } else {
        (QemuProcessState::TimedOut, QemuTerminationReason::TimedOut)
    }
}

/// `s` is the status a stop of the running entry `e1` reports for these answers: the
/// state and reason of [`stop_result`], the entry's VM and process id, and an exit code
/// once the process was seen to exit.
pub open spec fn stop_fits(
    e1: QemuProcessStatus,
    s: QemuProcessStatus,
    graceful: bool,
    exited: bool,
    killed: bool,
    exited_after_kill: bool,
) -> bool {
    let (state, reason) = stop_result(graceful, exited, killed, exited_after_kill);
    &&& s.state == state
    &&& s.termination_reason == Some(reason)
    &&& s.vm_id == e1.vm_id
    &&& s.process_id == e1.process_id
    &&& state == QemuProcessState::Stopped ==> s.exit_code is Some
    &&& state == QemuProcessState::TimedOut ==> s.exit_code == e1.exit_code
}

impl<L: ProcessLauncher> QemuProcessManager<L> {
    /// The table is well formed.
    pub open spec fn wf(&self) -> bool {
        table_wf(self.processes@)
    }

    /// A manager without processes.
    pub fn with_launcher(launcher: L) -> (m: Self)
        ensures
            m.wf(),
            m.processes@.len() == 0,
            m.launcher.launched() == Seq::<QemuCommandSpec>::empty(),
    {
        QemuProcessManager { launcher: Launcher::new(launcher), processes: Vec::new() }
    }

    /// Starts the QEMU process of `spec`, after checking the command and that no process
    /// of the VM is active. The process is reported running only once a poll found it
    /// alive. The file system is asked whether the executable is a regular file, and
    /// [`Self::start_with_file_answer`] does the rest.
    pub fn start(&mut self, spec: QemuCommandSpec) -> (r: Result<QemuProcessStatus, CommandError>)
        requires
            old(self).wf(),
        ensures
            final(self).wf(),
            exists|executable_is_file: bool|
                #[trigger] start_outcome(
                    spec,
                    executable_is_file,
                    old(self).processes@,
                    final(self).processes@,
                    r,
                    old(self).launcher.launched(),
                    final(self).launcher.launched(),
                ),
            spec.executable_path@.len() == 0 ==> start_outcome(
                spec,
                false,
                old(self).processes@,
                final(self).processes@,
                r,
                old(self).launcher.launched(),
                final(self).launcher.launched(),
            ),
            exists|executable_is_file: bool|
                executable_answer(spec.executable_path@, executable_is_file) && #[trigger] start_outcome(
                    spec,
                    executable_is_file,
                    old(self).processes@,
                    final(self).processes@,
                    r,
                    old(self).launcher.launched(),
                    final(self).launcher.launched(),
                ),
    {
        let is_file = spec.executable_path.as_str().unicode_len() != 0 && ask_is_file(
            spec.executable_path.as_str(),
        );
        assert(executable_answer(spec.executable_path@, is_file));
        self.start_with_file_answer(spec, is_file)
    }

    /// [`Self::start`], where `executable_is_file` is what the file system said of the
    /// command's executable: as [`start_outcome`] says.
    pub fn start_with_file_answer(&mut self, spec: QemuCommandSpec, executable_is_file: bool) -> (r:
        Result<QemuProcessStatus, CommandError>)
        requires
            old(self).wf(),
        ensures
            final(self).wf(),
            start_outcome(
                spec,
                executable_is_file,
                old(self).processes@,
                final(self).processes@,
                r,
                old(self).launcher.launched(),
                final(self).launcher.launched(),
            ),
    {
        let checked = check_qemu_command_spec(&spec, executable_is_file);
        let ghost b = executable_is_file;
        match checked {
            Ok(_) => {},
            Err(e) => {
                assert(start_outcome(spec, b, old(self).processes@, self.processes@, Err(e), old(self).launcher.launched(), self.launcher.launched()));
                return Err(e);
            },
        }
        let ghost id = spec.vm_id@;
        match find_entry(&self.processes, spec.vm_id.as_str()) {
            Some(i) => {
                if is_active_state(self.processes[i].status.state) {
                    let r = Err(CommandError::conflict("A QEMU process is already active for this VM."));
                    assert(start_outcome(spec, b, old(self).processes@, self.processes@, r, old(self).launcher.launched(), self.launcher.launched()));
                    return r;
                }
                proof {
                    lemma_remove_keeps_table(self.processes@, i as int);
                }
                self.processes.remove(i);
            },
            None => {},
        }
        let ghost mid = self.processes@;
        assert(!(entry_for(old(self).processes@, id) matches Some(e) && is_active(e.status.state)));
        assert(entry_for(mid, id) is None);
        assert(others_unchanged(old(self).processes@, mid, id));
        assert(table_wf(mid));
        let ghost mut g_launch: Result<u32, Seq<char>> = Err(Seq::empty());
        let ghost mut g_poll: Result<Option<i32>, Seq<char>> = Ok(None);
        let ghost mut g_out: QemuProcessOutput;
        let ghost mut g_calls: Seq<ChildCall> = Seq::empty();
        let (entry_status, r, child) = match self.launcher.launch(&spec) {
            Err(error) => {
                let out = QemuProcessOutput::default();
                proof {
                    g_launch = Err(error@);
                    g_out = out;
                }
                let d = launch_decision(&spec.vm_id, Err(error), Ok(None), out);
                (d.0, d.1, None)
            },
            Ok(mut child) => {
                let process_id = child.process_id();
                let poll = child.try_wait();
                let out = match poll {
                    Ok(Some(_)) => child.output(),
                    _ => QemuProcessOutput::default(),
                };
                proof {
                    g_launch = Ok(process_id);
                    g_poll = poll_view(poll);
                    g_out = out;
                    g_calls = child.calls();
                }
                assert(g_calls == seq![ChildCall::ProcessId(process_id), ChildCall::Poll(poll_answer(g_poll))]);
                let d = launch_decision(&spec.vm_id, Ok(process_id), poll, out);
                (d.0, d.1, Some(child))
            },
        };
        assert(entry_status == launch_entry(spec.vm_id, g_launch, g_poll, g_out));
        assert(entry_status is Some ==> child is Some);
        assert(child matches Some(h) ==> h.command() == spec && h.calls() == g_calls);
        match entry_status {
            None => {},
            Some(status) => {
                let running = matches!(status.state, QemuProcessState::Running);
                let entry = ProcessEntry {
                    status,
                    child: if running {
                        child
                    } else {
                        None
                    },
                    released: Ghost(g_calls),
                };
                proof {
                    lemma_push_keeps_table(mid, entry);
                }
                self.processes.push(entry);
            },
        }
        assert(launch_fits(spec, self.processes@, r, g_launch, g_poll, g_out));
        assert(start_outcome(spec, b, old(self).processes@, self.processes@, r, old(self).launcher.launched(), self.launcher.launched()));
        r
    }

    /// The status of the VM's process, brought up to date by one poll;
    /// `not-started` for a VM without one.
    pub fn status(&mut self, vm_id: &str) -> (r: Result<QemuProcessStatus, CommandError>)
        requires
            old(self).wf(),
        ensures
            final(self).wf(),
            match entry_for(old(self).processes@, vm_id@) {
                None => {
                    &&& final(self).processes@ == old(self).processes@
                    &&& r matches Ok(s) && idle_status(s, vm_id@, QemuProcessState::NotStarted)
                },
                Some(_) => exists|e1: ProcessEntry<L::Child>|
                    {
                        &&& #[trigger] entry_refreshed(
                            old(self).processes@,
                            final(self).processes@,
                            vm_id@,
                            e1,
                        )
                        &&& r == Ok::<QemuProcessStatus, CommandError>(e1.status)
                    },
            },
    {
        match find_entry(&self.processes, vm_id) {
            None => Ok(
                QemuProcessStatus {
                    vm_id: owned(vm_id),
                    state: QemuProcessState::NotStarted,
                    process_id: None,
                    exit_code: None,
                    termination_reason: None,
                    output: QemuProcessOutput::default(),
                },
            ),
            Some(i) => {
                let ghost before = self.processes@;
                let mut entry = self.processes.remove(i);
                refresh_entry(&mut entry);
                let snapshot = snapshot_entry(&entry);
                proof {
                    lemma_refresh_keeps(before[i as int], entry);
                    lemma_put_back(before, i as int, entry);
                }
                let ghost e1 = entry;
                self.processes.insert(i, entry);
                assert(self.processes@ =~= before.update(i as int, e1));
                assert(entry_refreshed(before, self.processes@, vm_id@, e1));
                Ok(snapshot)
            },
        }
    }

    /// Stops the VM's process: a graceful stop request first, then a kill when that is
    /// refused or the process does not exit in time. The handle is released in every
    /// case; `stopped` is reported for a VM without a process.
    pub fn stop(&mut self, vm_id: &str) -> (r: Result<QemuProcessStatus, CommandError>)
        requires
            old(self).wf(),
        ensures
            final(self).wf(),
            match entry_for(old(self).processes@, vm_id@) {
                None => {
                    &&& final(self).processes@ == old(self).processes@
                    &&& r matches Ok(s) && idle_status(s, vm_id@, QemuProcessState::Stopped)
                },
                Some(e0) => exists|e1: ProcessEntry<L::Child>, e2: ProcessEntry<L::Child>|
                    {
                        &&& #[trigger] stop_step(e0, e1, e2)
                        &&& entry_for(final(self).processes@, vm_id@) == Some(e2)
                        &&& others_unchanged(old(self).processes@, final(self).processes@, vm_id@)
                        &&& r == Ok::<QemuProcessStatus, CommandError>(e2.status)
                    },
            },
    {
        match find_entry(&self.processes, vm_id) {
            None => Ok(
                QemuProcessStatus {
                    vm_id: owned(vm_id),
                    state: QemuProcessState::Stopped,
                    process_id: None,
                    exit_code: None,
                    termination_reason: None,
                    output: QemuProcessOutput::default(),
                },
            ),
            Some(i) => {
                let ghost before = self.processes@;
                let mut entry = self.processes.remove(i);
                refresh_entry(&mut entry);
                let ghost e1 = entry;
                proof {
                    lemma_refresh_keeps(before[i as int], entry);
                }
                if entry.child.is_some() {
                    entry.status.state = QemuProcessState::Stopping;
                    let graceful = match entry.child.take() {
                        Some(mut child) => {
                            let g = match child.request_graceful_stop() {
                                Ok(g) => g,
                                Err(_) => false,
                            };
                            entry.child = Some(child);
                            g
                        },
                        None => false,
                    };
                    let exited = graceful && wait_for_exit(&mut entry, GRACEFUL_STOP_TIMEOUT_MILLIS);
                    let ghost first_wait: Option<i32> = if exited {
                        entry.status.exit_code
                    } else {
                        None
                    };
                    let ghost mut second_wait: Option<i32> = None;
                    let mut killed = false;
                    let mut exited_after_kill = false;
                    if !exited {
                        killed =
                        match entry.child.take() {
                            Some(mut child) => {
                                let k = child.kill().is_ok();
                                entry.child = Some(child);
                                k
                            },
                            None => false,
                        };
                        exited_after_kill = killed && wait_for_exit(
                            &mut entry,
                            GRACEFUL_STOP_TIMEOUT_MILLIS,
                        );
                        proof {
                            if exited_after_kill {
                                second_wait = entry.status.exit_code;
                            }
                        }
                    }
                    assert(history(entry) == history(e1) + stop_calls(
                        graceful,
                        first_wait,
                        killed,
                        second_wait,
                    ));
                    let (state, reason) = stop_decision(graceful, exited, killed, exited_after_kill);
                    entry.status.state = state;
                    entry.status.termination_reason = Some(reason);
                    match entry.child.take() {
                        Some(child) => {
                            entry.status.output = child.output();
                            entry.released = Ghost(child.calls());
                        },
                        None => {},
                    }
                    assert(stop_made(e1, entry, graceful, first_wait, killed, second_wait));
                }
                let snapshot = snapshot_entry(&entry);
                proof {
                    lemma_put_back(before, i as int, entry);
                }
                let ghost e2 = entry;
                self.processes.insert(i, entry);
                assert(self.processes@ =~= before.update(i as int, e2));
                assert(refreshed(before[i as int], e1));
                assert(entry_for(self.processes@, vm_id@) == Some(e2));
                assert(stop_step(before[i as int], e1, e2));
                Ok(snapshot)
            },
        }
    }
}

/// Waits up to `timeout_millis` for the process of an entry to exit and records its
/// exit code; `true` when it exited (or there is no process).
pub fn wait_for_exit<C: ManagedChild>(entry: &mut ProcessEntry<C>, timeout_millis: u64) -> (r: bool)
    ensures
        final(entry).child is Some <==> old(entry).child is Some,
        old(entry).child is None ==> r && *final(entry) == *old(entry),
        final(entry).status == (if r && old(entry).child is Some {
            QemuProcessStatus { exit_code: final(entry).status.exit_code, ..old(entry).status }
        } else {
            old(entry).status
        }),
        r && old(entry).child is Some ==> final(entry).status.exit_code is Some,
        old(entry).child is Some ==> history(*final(entry)) == history(*old(entry)).push(
            ChildCall::Wait(
                timeout_millis,
                if r {
                    final(entry).status.exit_code
                } else {
                    None
                },
            ),
        ),
        old(entry).child matches Some(h) ==> final(entry).child matches Some(h2) && h2.command()
            == h.command(),
{
    match entry.child.take() {
        None => true,
        Some(mut child) => {
            let exited = match child.wait_for_exit(timeout_millis) {
                Some(exit_code) => {
                    entry.status.exit_code = Some(exit_code);
                    true
                },
                None => false,
            };
            entry.child = Some(child);
            exited
        },
    }
}

/// A refresh keeps the key, the process id, and the link between handle and state.
proof fn lemma_refresh_keeps<C>(e0: ProcessEntry<C>, e1: ProcessEntry<C>)
    requires
        entry_settled(e0),
        refreshed(e0, e1),
    ensures
        entry_settled(e1),
        key(e1) == key(e0),
        e1.status.vm_id == e0.status.vm_id,
        e1.status.process_id == e0.status.process_id,
        e1.child is Some ==> e1.status.exit_code == e0.status.exit_code,
{
    if e0.child is Some {
        let (poll, out) = choose|poll: Option<Option<i32>>, out: QemuProcessOutput|
            #[trigger] after_poll(e0.status, poll, out) == e1.status && (e1.child is Some <==> poll
                == Some(None::<i32>));
        assert(after_poll(e0.status, poll, out) == e1.status);
    }
}

/// Putting back an entry with the same key at its place keeps the table well formed and
/// changes only what that key finds.
proof fn lemma_put_back<C>(s: Seq<ProcessEntry<C>>, i: int, e: ProcessEntry<C>)
    requires
        table_wf(s),
        0 <= i < s.len(),
        key(e) == key(s[i]),
        entry_settled(e),
    ensures
        table_wf(s.update(i, e)),
        entry_for(s.update(i, e), key(e)) == Some(e),
        others_unchanged(s, s.update(i, e), key(e)),
        entry_for(s, key(e)) == Some(s[i]),
{
    lemma_entry_for_update(s, i, e, key(e));
    lemma_entry_for_index(s, i);
    assert forall|other: Seq<char>| other != key(e) implies #[trigger] entry_for(s.update(i, e), other)
        == entry_for(s, other) by {
        lemma_entry_for_update(s, i, e, other);
    }
    let t = s.update(i, e);
    assert forall|k: int| 0 <= k < t.len() implies entry_settled(#[trigger] t[k]) by {
        if k != i {
            assert(t[k] == s[k]);
        }
    }
}

fn is_active_state(state: QemuProcessState) -> (b: bool)
    ensures
        b == is_active(state),
{
    matches!(
        state,
        QemuProcessState::Starting | QemuProcessState::Running | QemuProcessState::Stopping
    )
}

/// Removing an entry keeps the table well formed and changes only what its key finds.
proof fn lemma_remove_keeps_table<C>(s: Seq<ProcessEntry<C>>, i: int)
    requires
        table_wf(s),
        0 <= i < s.len(),
    ensures
        table_wf(s.remove(i)),
        entry_for(s.remove(i), key(s[i])) is None,
        others_unchanged(s, s.remove(i), key(s[i])),
{
    lemma_entry_for_remove(s, i, key(s[i]));
    assert forall|other: Seq<char>| other != key(s[i]) implies #[trigger] entry_for(s.remove(i), other)
        == entry_for(s, other) by {
        lemma_entry_for_remove(s, i, other);
    }
    let t = s.remove(i);
    assert forall|k: int| 0 <= k < t.len() implies entry_settled(#[trigger] t[k]) by {
        let k2 = if k < i { k } else { k + 1 };
        assert(t[k] == s[k2]);
    }
}

/// Appending an entry for an absent key keeps the table well formed when the entry has a
/// handle exactly if it runs.
proof fn lemma_push_keeps_table<C>(s: Seq<ProcessEntry<C>>, e: ProcessEntry<C>)
    requires
        table_wf(s),
        entry_for(s, key(e)) is None,
        entry_settled(e),
    ensures
        table_wf(s.push(e)),
        entry_for(s.push(e), key(e)) == Some(e),
        others_unchanged(s, s.push(e), key(e)),
{
    lemma_entry_for_push(s, e, key(e));
    assert forall|other: Seq<char>| other != key(e) implies #[trigger] entry_for(s.push(e), other)
        == entry_for(s, other) by {
        lemma_entry_for_push(s, e, other);
    }
    let t = s.push(e);
    assert forall|k: int| 0 <= k < t.len() implies entry_settled(#[trigger] t[k]) by {
        if k < s.len() {
            assert(t[k] == s[k]);
        }
    }
}

// ---------------------------------------------------------------------------------------
// Laws of the manager
// ---------------------------------------------------------------------------------------
/// A manager without processes, as one is made when the application starts, has no
/// entry for any VM: `status` reports every VM not started and `stop` reports it
/// stopped.
pub proof fn lemma_empty_table_has_no_entry<C>(s: Seq<ProcessEntry<C>>, id: Seq<char>)
    requires
        s.len() == 0,
    ensures
        entry_for(s, id) is None,
{
}

/// A start that succeeded launched its command once and leaves the VM running with the
/// handle of that command, so a second start of the same VM, whose command passes the
/// launch check, is refused as a duplicate, launches nothing and changes nothing.
pub proof fn lemma_duplicate_start_rejected<C>(
    spec: QemuCommandSpec,
    executable_is_file: bool,
    before: Seq<ProcessEntry<C>>,
    after: Seq<ProcessEntry<C>>,
    status: QemuProcessStatus,
    again: QemuCommandSpec,
    again_is_file: bool,
    after_again: Seq<ProcessEntry<C>>,
    r: Result<QemuProcessStatus, CommandError>,
    launched0: Seq<QemuCommandSpec>,
    launched1: Seq<QemuCommandSpec>,
    launched2: Seq<QemuCommandSpec>,
)
    requires
        start_outcome(
            spec,
            executable_is_file,
            before,
            after,
            Ok::<QemuProcessStatus, CommandError>(status),
            launched0,
            launched1,
        ),
        again.vm_id@ == spec.vm_id@,
        command_spec_check(again, again_is_file) is Ok,
        start_outcome(again, again_is_file, after, after_again, r, launched1, launched2),
    ensures
        status.state == QemuProcessState::Running,
        launched1 == launched0.push(spec),
        entry_for(after, spec.vm_id@) matches Some(e) && e.child matches Some(h) && h.command()
            == spec,
        after_again == after,
        launched2 == launched1,
        r matches Err(e) && e@ == already_active(),
{
    let (launch, poll, out) = choose|
        launch: Result<u32, Seq<char>>,
        poll: Result<Option<i32>, Seq<char>>,
        out: QemuProcessOutput,
    | #[trigger] launch_fits(spec, after, Ok::<QemuProcessStatus, CommandError>(status), launch, poll, out);
    assert(launch_fits(spec, after, Ok::<QemuProcessStatus, CommandError>(status), launch, poll, out));
    let e = entry_for(after, spec.vm_id@)->0;
    assert(is_active(e.status.state));
}

/// A VM whose entry holds no process handle, as every entry does after a stop, can be
/// started again: a start whose command passes the launch check is not refused as a
/// duplicate; it launches, and only the VM's own entry changes.
pub proof fn lemma_start_after_stop<C>(
    e0: ProcessEntry<C>,
    e1: ProcessEntry<C>,
    e2: ProcessEntry<C>,
    table: Seq<ProcessEntry<C>>,
    spec: QemuCommandSpec,
    executable_is_file: bool,
    after: Seq<ProcessEntry<C>>,
    r: Result<QemuProcessStatus, CommandError>,
    launched_before: Seq<QemuCommandSpec>,
    launched_after: Seq<QemuCommandSpec>,
)
    requires
        table_wf(table),
        stop_step(e0, e1, e2),
        entry_for(table, spec.vm_id@) == Some(e2),
        command_spec_check(spec, executable_is_file) is Ok,
        start_outcome(spec, executable_is_file, table, after, r, launched_before, launched_after),
    ensures
        e2.child is None,
        launched_after == launched_before.push(spec),
        others_unchanged(table, after, spec.vm_id@),
        launch_outcome(spec, after, r),
{
    let id = spec.vm_id@;
    let i = choose|i: int| 0 <= i < table.len() && key(#[trigger] table[i]) == id;
    assert(entry_settled(table[i]));
}

/// A stop releases the process handle, so what a stop reported stays: a later status
/// poll leaves the entry as the stop left it, and a repeated stop does too.
pub proof fn lemma_stop_result_stays<C>(
    e0: ProcessEntry<C>,
    e1: ProcessEntry<C>,
    e2: ProcessEntry<C>,
    polled: ProcessEntry<C>,
    f1: ProcessEntry<C>,
    f2: ProcessEntry<C>,
)
    requires
        stop_step(e0, e1, e2),
        refreshed(e2, polled),
        stop_step(e2, f1, f2),
    ensures
        polled == e2,
        f2 == e2,
{
}

} // verus!
