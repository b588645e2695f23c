//! Handles that keep, as ghost state, a record of every call made through them to a
//! launcher, a child process or a disk host, with the answers that came back. The
//! record is kept by the handles' own verified methods, so what the managers state of
//! it is what they did.
use vstd::prelude::*;

use crate::disk_manager::DiskHost;
use crate::process_manager::{ManagedChild, ProcessLauncher, QemuProcessOutput};
use crate::qemu_command::{command_spec_check, texts, QemuCommandSpec};
use crate::runtime_adapter::QemuHost;

verus! {

/// One call made to a child process, with what it answered.
pub enum ChildCall {
    /// `process_id` answered this id.
    ProcessId(u32),
    /// `try_wait` answered: `Some(Some(code))` exited, `Some(None)` running, `None` the
    /// poll failed.
    Poll(Option<Option<i32>>),
    /// `request_graceful_stop` was made; `true` when it answered that it was delivered.
    GracefulStop(bool),
    /// `kill` was made; `true` when it succeeded.
    Kill(bool),
    /// `wait_for_exit` was made with this timeout and answered this exit code, if any.
    Wait(u64, Option<i32>),
}

/// A child process started for a command, with the calls made to it so far.
pub struct ChildHandle<C> {
    child: C,
    command: Ghost<QemuCommandSpec>,
    calls: Ghost<Seq<ChildCall>>,
}

impl<C> ChildHandle<C> {
    /// The command the process was started for.
    pub closed spec fn command(&self) -> QemuCommandSpec {
        self.command@
    }

    /// The calls made to the process so far, in order.
    pub closed spec fn calls(&self) -> Seq<ChildCall> {
        self.calls@
    }
}

impl<C: ManagedChild> ChildHandle<C> {
    /// The process's id.
    pub fn process_id(&mut self) -> (r: u32)
        ensures
            final(self).calls() == old(self).calls().push(ChildCall::ProcessId(r)),
            final(self).command() == old(self).command(),
    {
        let r = self.child.process_id();
        proof {
            self.calls@ = self.calls@.push(ChildCall::ProcessId(r));
        }
        r
    }

    /// Polls the process once.
    pub fn try_wait(&mut self) -> (r: Result<Option<i32>, String>)
        ensures
            final(self).calls() == old(self).calls().push(
                ChildCall::Poll(
                    match r {
                        Ok(p) => Some(p),
                        Err(_) => None,
                    },
                ),
            ),
            final(self).command() == old(self).command(),
    {
        let r = self.child.try_wait();
        proof {
            let answer = match r {
                Ok(p) => Some(p),
                Err(_) => None,
            };
            self.calls@ = self.calls@.push(ChildCall::Poll(answer));
        }
        r
    }

    /// Kills the process.
    pub fn kill(&mut self) -> (r: Result<(), String>)
        ensures
            final(self).calls() == old(self).calls().push(ChildCall::Kill(r is Ok)),
            final(self).command() == old(self).command(),
    {
        let r = self.child.kill();
        proof {
            self.calls@ = self.calls@.push(ChildCall::Kill(r is Ok));
        }
        r
    }

    /// Asks the process to stop.
    pub fn request_graceful_stop(&mut self) -> (r: Result<bool, String>)
        ensures
            final(self).calls() == old(self).calls().push(
                ChildCall::GracefulStop(r == Ok::<bool, String>(true)),
            ),
            final(self).command() == old(self).command(),
    {
        let r = self.child.request_graceful_stop();
        proof {
            self.calls@ = self.calls@.push(ChildCall::GracefulStop(r == Ok::<bool, String>(true)));
        }
        r
    }

    /// Waits up to `timeout_millis` for the process to exit.
    pub fn wait_for_exit(&mut self, timeout_millis: u64) -> (r: Option<i32>)
        ensures
            final(self).calls() == old(self).calls().push(ChildCall::Wait(timeout_millis, r)),
            final(self).command() == old(self).command(),
    {
        let r = self.child.wait_for_exit(timeout_millis);
        proof {
            self.calls@ = self.calls@.push(ChildCall::Wait(timeout_millis, r));
        }
        r
    }

    /// What the process wrote so far.
    pub fn output(&self) -> QemuProcessOutput {
        self.child.output()
    }
}

/// A process launcher, with the commands launched through it so far.
pub struct Launcher<L> {
    launcher: L,
    launched: Ghost<Seq<QemuCommandSpec>>,
}

impl<L: ProcessLauncher> Launcher<L> {
    /// The commands launched so far, in order.
    pub closed spec fn launched(&self) -> Seq<QemuCommandSpec> {
        self.launched@
    }

    /// A launcher through which nothing was launched yet.
    pub fn new(launcher: L) -> (r: Self)
        ensures
            r.launched() == Seq::<QemuCommandSpec>::empty(),
    {
        Launcher { launcher, launched: Ghost(Seq::empty()) }
    }

    /// Launches `spec` once; the handle of the new process records its command and no
    /// call yet.
    pub fn launch(&mut self, spec: &QemuCommandSpec) -> (r: Result<ChildHandle<L::Child>, String>)
        requires
            command_spec_check(*spec, true) is Ok,
        ensures
            final(self).launched() == old(self).launched().push(*spec),
            r matches Ok(h) ==> h.command() == *spec && h.calls() == Seq::<ChildCall>::empty(),
    {
        let r = self.launcher.launch(spec);
        proof {
            self.launched@ = self.launched@.push(*spec);
        }
        match r {
            Ok(child) => Ok(ChildHandle { child, command: Ghost(*spec), calls: Ghost(Seq::empty()) }),
            Err(e) => Err(e),
        }
    }
}

/// A disk host, with the `qemu-img` runs made through it so far: each the executable
/// and its arguments.
pub struct QemuImgHost<H> {
    host: H,
    runs: Ghost<Seq<(Seq<char>, Seq<Seq<char>>)>>,
}

impl<H: DiskHost> QemuImgHost<H> {
    /// The runs made so far, in order.
    pub closed spec fn runs(&self) -> Seq<(Seq<char>, Seq<Seq<char>>)> {
        self.runs@
    }

    /// A host through which nothing was run yet.
    pub fn new(host: H) -> (r: Self)
        ensures
            r.runs() == Seq::<(Seq<char>, Seq<Seq<char>>)>::empty(),
    {
        QemuImgHost { host, runs: Ghost(Seq::empty()) }
    }

    /// The host itself.
    pub fn host(&self) -> &H {
        &self.host
    }

    /// Runs `qemu-img` once with `arguments`.
    pub fn run_qemu_img(&mut self, executable: &str, arguments: &Vec<String>) -> (r: Result<
        (bool, String),
        String,
    >)
        requires
            exists|path: Seq<char>, size_gib: nat|
                texts(arguments@) == #[trigger] crate::disk_manager::create_arguments(
                    path,
                    size_gib,
                    "qcow2"@,
                ),
        ensures
            final(self).runs() == old(self).runs().push((executable@, texts(arguments@))),
    {
        let r = self.host.run_qemu_img(executable, arguments);
        proof {
            self.runs@ = self.runs@.push((executable@, texts(arguments@)));
        }
        r
    }
}

/// One run of a version query: the executable, its arguments, and what came back (its
/// success and standard output, or why it could not be had).
pub type ProbeRecord = (Seq<char>, Seq<Seq<char>>, Result<(bool, Seq<char>), Seq<char>>);

/// A QEMU host, with the version queries made through it so far.
pub struct ProbeHost<H> {
    host: H,
    probes: Ghost<Seq<ProbeRecord>>,
}

impl<H: QemuHost> ProbeHost<H> {
    /// The version queries made so far, in order.
    pub closed spec fn probes(&self) -> Seq<ProbeRecord> {
        self.probes@
    }

    /// A host through which nothing was queried yet.
    pub fn new(host: H) -> (r: Self)
        ensures
            r.probes() == Seq::<ProbeRecord>::empty(),
    {
        ProbeHost { host, probes: Ghost(Seq::empty()) }
    }

    /// The host itself.
    pub fn host(&self) -> &H {
        &self.host
    }

    /// Runs `executable` once with `arguments` to ask for its version.
    pub fn version_output(&mut self, executable: &str, arguments: &Vec<String>) -> (r: Result<
        (bool, String),
        String,
    >)
        ensures
            final(self).probes() == old(self).probes().push(
                (
                    executable@,
                    texts(arguments@),
                    match r {
                        Ok((success, out)) => Ok((success, out@)),
                        Err(why) => Err(why@),
                    },
                ),
            ),
    {
        let r = self.host.version_output(executable, arguments);
        proof {
            let answer: Result<(bool, Seq<char>), Seq<char>> = match &r {
                Ok((success, out)) => Ok((*success, out@)),
                Err(why) => Err(why@),
            };
            self.probes@ = self.probes@.push((executable@, texts(arguments@), answer));
        }
        r
    }
}

} // verus!
