use crate::pod::{Pod, PodView};
use crate::text::{push_signed_decimal, signed_decimal};
use vstd::prelude::*;
use vstd::string::*;

verus! {

/// What one non-blocking poll of a forwarding process found.
#[derive(Clone, Copy, Debug, PartialEq, Eq, Structural)]
pub enum ProcessStatus {
    /// The process has exited.
    Exited,
    /// The process has not exited yet.
    Running,
    /// The poll itself failed.
    Unknown,
}

/// Why a lifecycle operation on a session was refused or failed.
#[derive(Clone, Copy, Debug, PartialEq, Eq, Structural)]
pub enum Error {
    /// A forward was to be started on a session whose process is alive.
    AlreadyRunning,
    /// A forward was to be stopped on a session that holds no handle.
    NotRunning,
    /// The forwarding process could not be created.
    SpawnFailed,
    /// The forwarding process could not be signalled or reaped.
    TerminateFailed,
}

/// What the selection of a session asks for.
#[derive(Clone, Copy, Debug, PartialEq, Eq, Structural)]
pub enum Toggle {
    /// The session is not running: spawn its forward.
    Start,
    /// The session is running: terminate its forward.
    Stop,
}

/// What a session stands for: its target and the handle it holds.
pub struct PodUIView<H> {
    pub pod: PodView,
    pub process: Option<H>,
}

impl<H> PodUIView<H> {
    /// A session counts as running when it holds a handle and the poll of
    /// that handle found the process alive.
    pub open spec fn running(self, status: ProcessStatus) -> bool {
        self.process is Some && status == ProcessStatus::Running
    }

    /// Whether a forward may be started: not while the session is running.
    pub open spec fn start(self, status: ProcessStatus) -> Result<(), Error> {
        if self.running(status) {
            Err(Error::AlreadyRunning)
        } else {
            Ok(())
        }
    }

    /// The session after a spawn: it holds what the spawn gave.
    pub open spec fn started(self, spawned: Option<H>) -> PodUIView<H> {
        PodUIView { process: spawned, ..self }
    }

    /// What a termination amounts to for this session.
    pub open spec fn stop(self, terminated: bool) -> Result<(), Error> {
        if self.process is None {
            Err(Error::NotRunning)
        } else if terminated {
            Ok(())
        } else {
            Err(Error::TerminateFailed)
        }
    }

    /// The session after a termination: the handle is gone once the process
    /// has been signalled and reaped, and stays otherwise.
    pub open spec fn stopped(self, terminated: bool) -> PodUIView<H> {
        if terminated {
            PodUIView { process: None, ..self }
        } else {
            self
        }
    }

    /// The session without its handle.
    pub open spec fn released(self) -> PodUIView<H> {
        PodUIView { process: None, ..self }
    }

    /// What the selection of this session asks for.
    pub open spec fn toggle(self, status: ProcessStatus) -> Toggle {
        if self.running(status) {
            Toggle::Stop
        } else {
            Toggle::Start
        }
    }
}

/// The row text of a target: context, namespace, service and port, and
/// whether it is running.
pub open spec fn label(pod: PodView, running: bool) -> Seq<char> {
    pod.context + " - "@ + pod.namespace + " - "@ + pod.service + ":"@ + signed_decimal(pod.port)
        + " - "@ + if running {
        "Running"@
    } else {
        "Not Running"@
    }
}

/// What a spawn amounts to: it failed when it gave no handle.
pub open spec fn spawn_result<H>(spawned: Option<H>) -> Result<(), Error> {
    if spawned is Some {
        Ok(())
    } else {
        Err(Error::SpawnFailed)
    }
}

/// A session: one forwarding target and the handle of the process that
/// currently forwards it, if any. `H` is the handle type; a session only
/// stores it and lends it out.
///
/// A session spawns, polls and signals nothing itself. Its caller does, and
/// tells the session what came of it: `status` is what a poll of the held
/// handle found, `spawned` what a spawn gave, `terminated` whether the
/// process was signalled and reaped.
pub struct PodUI<H> {
    pod: Pod,
    process: Option<H>,
}

impl<H> View for PodUI<H> {
    type V = PodUIView<H>;

    closed spec fn view(&self) -> PodUIView<H> {
        PodUIView { pod: self.pod@, process: self.process }
    }
}

impl<H> PodUI<H> {
    /// A session for `pod` that holds no handle.
    pub fn new(pod: Pod) -> (session: Self)
        ensures
            session@ == (PodUIView::<H> { pod: pod@, process: None }),
    {
        PodUI { pod, process: None }
    }

    pub fn get_service(&self) -> (service: String)
        ensures
            service@ == self@.pod.service,
    {
        self.pod.get_service()
    }

    pub fn get_namespace(&self) -> (namespace: String)
        ensures
            namespace@ == self@.pod.namespace,
    {
        self.pod.get_namespace()
    }

    pub fn get_context(&self) -> (context: String)
        ensures
            context@ == self@.pod.context,
    {
        self.pod.get_context()
    }

    pub fn get_port(&self) -> (port: i32)
        ensures
            port as int == self@.pod.port,
    {
        self.pod.get_port()
    }

    /// The target, to hand to the command that spawns the forward.
    pub fn get_pod(&self) -> (pod: &Pod)
        ensures
            pod@ == self@.pod,
    {
        &self.pod
    }

    /// Whether this session belongs to the environment `context`.
    pub fn in_context(&self, context: &String) -> (same: bool)
        ensures
            same == (self@.pod.context == context@),
    {
        self.pod.in_context(context)
    }

    pub fn has_process(&self) -> (held: bool)
        ensures
            held == (self@.process is Some),
    {
        self.process.is_some()
    }

    /// Lends out the handle, so that the process can be polled or signalled.
    /// The session holds a handle afterwards exactly if it held one before.
    pub fn process_mut(&mut self) -> (handle: Option<&mut H>)
        ensures
            final(self)@.pod == old(self)@.pod,
            match old(self)@.process {
                None => handle is None && final(self)@.process is None,
                Some(held) => handle is Some && *handle->0 == held && final(self)@.process
                    == Some(*final(handle->0)),
            },
    {
        self.process.as_mut()
    }

    /// Whether the session is running, given what the poll of its process
    /// found. A session without a handle is not running, whatever `status`
    /// says. The handle stays where it is, also when the process has exited.
    pub fn is_running(&self, status: ProcessStatus) -> (running: bool)
        ensures
            running == self@.running(status),
    {
        self.process.is_some() && status == ProcessStatus::Running
    }

    /// The row text of this session, given what the poll of its process
    /// found.
    pub fn label(&self, status: ProcessStatus) -> (text: String)
        ensures
            text@ == label(self@.pod, self@.running(status)),
    {
        let mut text = self.pod.get_context();
        text.append(" - ");
        text.append(self.pod.get_namespace().as_str());
        text.append(" - ");
        text.append(self.pod.get_service().as_str());
        text.append(":");
        push_signed_decimal(&mut text, self.pod.get_port());
        text.append(" - ");
        if self.is_running(status) {
            text.append("Running");
        } else {
            text.append("Not Running");
        }
        text
    }

    /// Decides whether a forward may be spawned for this session: not while
    /// it is running. After the spawn, `started` records what it gave.
    pub fn start(&self, status: ProcessStatus) -> (allowed: Result<(), Error>)
        ensures
            allowed == self@.start(status),
    {
        if self.is_running(status) {
            Err(Error::AlreadyRunning)
        } else {
            Ok(())
        }
    }

    /// Records what the spawn of this session's forward gave: the session
    /// holds the new handle, or none when the spawn failed. A handle held
    /// before, of a process that is no longer alive, is dropped.
    pub fn started(&mut self, spawned: Option<H>) -> (outcome: Result<(), Error>)
        ensures
            final(self)@ == old(self)@.started(spawned),
            outcome == spawn_result(spawned),
    {
        let outcome = if spawned.is_some() {
            Ok(())
        } else {
            Err(Error::SpawnFailed)
        };
        self.process = spawned;
        outcome
    }

    /// Records the termination of this session's process. Without a handle
    /// there was nothing to terminate. Otherwise the handle is dropped when
    /// the process was signalled and reaped, and kept when that failed.
    pub fn stop(&mut self, terminated: bool) -> (outcome: Result<(), Error>)
        ensures
            outcome == old(self)@.stop(terminated),
            final(self)@ == old(self)@.stopped(terminated),
    {
        if self.process.is_none() {
            Err(Error::NotRunning)
        } else if terminated {
            self.process = None;
            Ok(())
        } else {
            Err(Error::TerminateFailed)
        }
    }

    /// Takes the handle out of the session.
    pub fn release(&mut self) -> (handle: Option<H>)
        ensures
            handle == old(self)@.process,
            final(self)@ == old(self)@.released(),
    {
        self.process.take()
    }
}

/// What the selection of `pod` asks for: to stop it when it is running, to
/// start it when it is not.
pub fn process_selected_pod<H>(pod: &PodUI<H>, status: ProcessStatus) -> (toggle: Toggle)
    ensures
        toggle == pod@.toggle(status),
{
    if pod.is_running(status) {
        Toggle::Stop
    } else {
        Toggle::Start
    }
}

} // verus!
