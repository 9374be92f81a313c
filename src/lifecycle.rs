//! Lifecycles of the two processes, as state machines driven by what the
//! processes observe, and the relay of the target's exit code.
use vstd::prelude::*;
use crate::pipe::BridgeError;

verus! {

/// Exit code used when an exit code cannot be obtained, and for every fatal failure.
pub const FAILURE_EXIT_CODE: u32 = 101;

/// The worker's exit code, given the target's exit status as the terminal reports it.
pub open spec fn worker_exit_rule(status: Option<u32>) -> u32 {
    match status {
        Some(code) => code,
        None => FAILURE_EXIT_CODE,
    }
}

pub fn worker_exit_code(status: Option<u32>) -> (r: u32)
    ensures
        r == worker_exit_rule(status),
{
    match status {
        Some(code) => code,
        None => FAILURE_EXIT_CODE,
    }
}

/// The supervisor's exit code, given the worker's exit code if one was obtained.
pub open spec fn supervisor_exit_rule(worker_code: Option<u32>) -> Result<u32, BridgeError> {
    match worker_code {
        Some(code) => Ok(code),
        None => Err(BridgeError::ExitStatusUnavailable),
    }
}

pub fn supervisor_exit_code(worker_code: Option<u32>) -> (r: Result<u32, BridgeError>)
    ensures
        r == supervisor_exit_rule(worker_code),
{
    match worker_code {
        Some(code) => Ok(code),
        None => Err(BridgeError::ExitStatusUnavailable),
    }
}

#[derive(Clone, Copy, Debug, PartialEq, Eq, Structural)]
pub enum WorkerPhase {
    AwaitingPipes,
    PipesConnected,
    TerminalSpawned,
    Forwarding,
    Draining,
    Exited(u32),
}

/// What the worker observed.
#[derive(Clone, Copy, Debug, PartialEq, Eq, Structural)]
pub enum WorkerEvent {
    PipesConnected,
    ConnectFailed(BridgeError),
    TerminalSpawned,
    SpawnFailed,
    LoopsStarted,
    /// The target was seen to be no longer alive (or its liveness could no
    /// longer be polled).
    TargetExited,
    OutputLoopDone,
    InputLoopDone,
    ExitStatus(Option<u32>),
}

/// What the worker does next.
#[derive(Clone, Copy, Debug, PartialEq, Eq, Structural)]
pub enum WorkerAction {
    SpawnTerminal,
    StartLoops,
    /// Wait for the next signal from a loop or from the liveness watch.
    AwaitLoops,
    QueryExitStatus,
    Exit(u32),
    /// The event does not apply in this state; nothing changes.
    Ignore,
}

/// The worker's state: its phase, whether the target was seen to exit, and
/// which of its loops have reported that they ended (each reports once).
#[derive(Clone, Copy, Debug, PartialEq, Eq, Structural)]
pub struct WorkerState {
    pub phase: WorkerPhase,
    pub target_exited: bool,
    pub output_done: bool,
    pub input_done: bool,
}

pub open spec fn forwarding_or_draining(p: WorkerPhase) -> bool {
    p == WorkerPhase::Forwarding || p == WorkerPhase::Draining
}

/// The exit status may be read: the target was seen to exit and the output
/// loop has drained what it left.
pub open spec fn ready_for_status(s: WorkerState) -> bool {
    s.target_exited && s.output_done
}

pub open spec fn wait_or_query(s: WorkerState) -> WorkerAction {
    if ready_for_status(s) {
        WorkerAction::QueryExitStatus
    } else {
        WorkerAction::AwaitLoops
    }
}

pub open spec fn worker_rule(s: WorkerState, e: WorkerEvent) -> (WorkerState, WorkerAction) {
    let unchanged = (s, WorkerAction::Ignore);
    match e {
        WorkerEvent::PipesConnected => if s.phase == WorkerPhase::AwaitingPipes {
            (WorkerState { phase: WorkerPhase::PipesConnected, ..s }, WorkerAction::SpawnTerminal)
        } else {
            unchanged
        },
        WorkerEvent::ConnectFailed(_) => if s.phase == WorkerPhase::AwaitingPipes {
            (WorkerState { phase: WorkerPhase::Exited(FAILURE_EXIT_CODE), ..s }, WorkerAction::Exit(FAILURE_EXIT_CODE))
        } else {
            unchanged
        },
        WorkerEvent::TerminalSpawned => if s.phase == WorkerPhase::PipesConnected {
            (WorkerState { phase: WorkerPhase::TerminalSpawned, ..s }, WorkerAction::StartLoops)
        } else {
            unchanged
        },
        WorkerEvent::SpawnFailed => if s.phase == WorkerPhase::PipesConnected {
            (WorkerState { phase: WorkerPhase::Exited(FAILURE_EXIT_CODE), ..s }, WorkerAction::Exit(FAILURE_EXIT_CODE))
        } else {
            unchanged
        },
        WorkerEvent::LoopsStarted => if s.phase == WorkerPhase::TerminalSpawned {
            (WorkerState { phase: WorkerPhase::Forwarding, ..s }, WorkerAction::AwaitLoops)
        } else {
            unchanged
        },
        WorkerEvent::TargetExited => if forwarding_or_draining(s.phase) && !s.target_exited {
            let s2 = WorkerState { phase: WorkerPhase::Draining, target_exited: true, ..s };
            (s2, wait_or_query(s2))
        } else {
            unchanged
        },
        WorkerEvent::OutputLoopDone => if forwarding_or_draining(s.phase) && !s.output_done {
            let s2 = WorkerState { output_done: true, ..s };
            (s2, wait_or_query(s2))
        } else {
            unchanged
        },
        WorkerEvent::InputLoopDone => if forwarding_or_draining(s.phase) && !s.input_done {
            let s2 = WorkerState { input_done: true, ..s };
            (s2, wait_or_query(s2))
        } else {
            unchanged
        },
        WorkerEvent::ExitStatus(status) => if forwarding_or_draining(s.phase) && ready_for_status(s) {
            let code = worker_exit_rule(status);
            (WorkerState { phase: WorkerPhase::Exited(code), ..s }, WorkerAction::Exit(code))
        } else {
            unchanged
        },
    }
}

impl WorkerState {
    pub fn new() -> (r: Self)
        ensures
            r == initial_worker_state(),
    {
        WorkerState { phase: WorkerPhase::AwaitingPipes, target_exited: false, output_done: false, input_done: false }
    }

    fn query_or_wait(&self) -> (a: WorkerAction)
        ensures
            a == wait_or_query(*self),
    {
        if self.target_exited && self.output_done {
            WorkerAction::QueryExitStatus
        } else {
            WorkerAction::AwaitLoops
        }
    }

    /// Moves the worker's lifecycle on by one event and says what to do next.
    /// The exit status is only asked for, and the worker only ends after the
    /// loops started, once the target was seen to exit and the output loop
    /// has drained its output; the input loop's end alone never ends the worker.
    pub fn step(&mut self, e: WorkerEvent) -> (a: WorkerAction)
        ensures
            (*final(self), a) == worker_rule(*old(self), e),
            a == WorkerAction::QueryExitStatus ==> final(self).target_exited && final(self).output_done,
            forwarding_or_draining(old(self).phase) && a is Exit ==> old(self).target_exited && old(self).output_done,
    {
        let active = self.phase == WorkerPhase::Forwarding || self.phase == WorkerPhase::Draining;
        match e {
            WorkerEvent::PipesConnected => if self.phase == WorkerPhase::AwaitingPipes {
                self.phase = WorkerPhase::PipesConnected;
                WorkerAction::SpawnTerminal
            } else {
                WorkerAction::Ignore
            },
            WorkerEvent::ConnectFailed(_) => if self.phase == WorkerPhase::AwaitingPipes {
                self.phase = WorkerPhase::Exited(FAILURE_EXIT_CODE);
                WorkerAction::Exit(FAILURE_EXIT_CODE)
            } else {
                WorkerAction::Ignore
            },
            WorkerEvent::TerminalSpawned => if self.phase == WorkerPhase::PipesConnected {
                self.phase = WorkerPhase::TerminalSpawned;
                WorkerAction::StartLoops
            } else {
                WorkerAction::Ignore
            },
            WorkerEvent::SpawnFailed => if self.phase == WorkerPhase::PipesConnected {
                self.phase = WorkerPhase::Exited(FAILURE_EXIT_CODE);
                WorkerAction::Exit(FAILURE_EXIT_CODE)
            } else {
                WorkerAction::Ignore
            },
            WorkerEvent::LoopsStarted => if self.phase == WorkerPhase::TerminalSpawned {
                self.phase = WorkerPhase::Forwarding;
                WorkerAction::AwaitLoops
            } else {
                WorkerAction::Ignore
            },
            WorkerEvent::TargetExited => if active && !self.target_exited {
                self.phase = WorkerPhase::Draining;
                self.target_exited = true;
                self.query_or_wait()
            } else {
                WorkerAction::Ignore
            },
            WorkerEvent::OutputLoopDone => if active && !self.output_done {
                self.output_done = true;
                self.query_or_wait()
            } else {
                WorkerAction::Ignore
            },
            WorkerEvent::InputLoopDone => if active && !self.input_done {
                self.input_done = true;
                self.query_or_wait()
            } else {
                WorkerAction::Ignore
            },
            WorkerEvent::ExitStatus(status) => if active && self.target_exited && self.output_done {
                let code = worker_exit_code(status);
                self.phase = WorkerPhase::Exited(code);
                WorkerAction::Exit(code)
            } else {
                WorkerAction::Ignore
            },
        }
    }
}

pub open spec fn initial_worker_state() -> WorkerState {
    WorkerState { phase: WorkerPhase::AwaitingPipes, target_exited: false, output_done: false, input_done: false }
}

/// The worker's state after the events of `events`, in order, from `s`.
pub open spec fn worker_run(s: WorkerState, events: Seq<WorkerEvent>) -> WorkerState
    decreases events.len(),
{
    if events.len() == 0 {
        s
    } else {
        worker_rule(worker_run(s, events.drop_last()), events.last()).0
    }
}

/// Whatever order the events come in: once the loops have started, the
/// worker asks for the exit status, and ends, only after the target was seen
/// to exit and the output loop finished draining; and when it ends on an exit
/// status `Some(code)`, it ends with `code` itself.
pub proof fn lemma_worker_exit_follows_target(events: Seq<WorkerEvent>, e: WorkerEvent)
    ensures
        ({
            let s = worker_run(initial_worker_state(), events);
            let (s2, a) = worker_rule(s, e);
            &&& a == WorkerAction::QueryExitStatus ==> s2.target_exited && s2.output_done
            &&& forwarding_or_draining(s.phase) && a is Exit ==> s.target_exited && s.output_done
            &&& forall|code: u32| e == WorkerEvent::ExitStatus(Some(code)) && a is Exit ==> a == WorkerAction::Exit(code)
        }),
{
}

/// When the target exits with code `code`, the worker, once it may read the
/// status, exits with `code`; the supervisor, which obtains the worker's exit
/// code and has seen its output end, exits with `code` too.
pub proof fn lemma_exit_code_propagates(s: WorkerState, code: u32)
    requires
        forwarding_or_draining(s.phase),
        ready_for_status(s),
    ensures
        worker_rule(s, WorkerEvent::ExitStatus(Some(code))).1 == WorkerAction::Exit(code),
        worker_rule(s, WorkerEvent::ExitStatus(Some(code))).0.phase == WorkerPhase::Exited(code),
        supervisor_rule(SupervisorPhase::OutputEnded, SupervisorEvent::WorkerExited(Some(code))).1
            == SupervisorAction::Exit(code),
        supervisor_rule(SupervisorPhase::WorkerGone(Some(code)), SupervisorEvent::OutputLoopEnded).1
            == SupervisorAction::Exit(code),
{
}

#[derive(Clone, Copy, Debug, PartialEq, Eq, Structural)]
pub enum SupervisorPhase {
    CreatingPipes,
    /// Both pipes exist; the worker is being launched.
    LaunchingWorker,
    /// The worker runs; both pipes wait for it to connect.
    AwaitingPeers,
    Forwarding,
    /// The loop from the worker's pipe to standard output has ended; the
    /// worker has not yet been seen to exit.
    OutputEnded,
    /// The worker has exited, with this exit code if it could be had; its
    /// remaining output is still being copied to standard output.
    WorkerGone(Option<u32>),
    Exited(u32),
}

/// What the supervisor observed.
#[derive(Clone, Copy, Debug, PartialEq, Eq, Structural)]
pub enum SupervisorEvent {
    PipesCreated,
    CreateFailed(BridgeError),
    WorkerLaunched,
    LaunchFailed,
    PeersConnected,
    ConnectFailed(BridgeError),
    /// The loop from the worker's pipe to standard output has ended.
    OutputLoopEnded,
    /// The worker process ended; its exit code, if it could be obtained.
    WorkerExited(Option<u32>),
}

/// What the supervisor does next.
#[derive(Clone, Copy, Debug, PartialEq, Eq, Structural)]
pub enum SupervisorAction {
    LaunchWorker,
    AwaitPeers,
    /// Start both forwarding loops, then wait for the worker and the output loop to end.
    StartForwarding,
    /// Wait for the other of the worker's exit and the output loop's end.
    AwaitEnd,
    /// Report the failure and end with `FAILURE_EXIT_CODE`.
    Fail(BridgeError),
    Exit(u32),
    Ignore,
}

pub open spec fn supervisor_end(code: Option<u32>) -> (SupervisorPhase, SupervisorAction) {
    match supervisor_exit_rule(code) {
        Ok(c) => (SupervisorPhase::Exited(c), SupervisorAction::Exit(c)),
        Err(err) => (SupervisorPhase::Exited(FAILURE_EXIT_CODE), SupervisorAction::Fail(err)),
    }
}

pub open spec fn supervisor_rule(p: SupervisorPhase, e: SupervisorEvent) -> (SupervisorPhase, SupervisorAction) {
    let failed = SupervisorPhase::Exited(FAILURE_EXIT_CODE);
    match (p, e) {
        (SupervisorPhase::CreatingPipes, SupervisorEvent::PipesCreated) =>
            (SupervisorPhase::LaunchingWorker, SupervisorAction::LaunchWorker),
        (SupervisorPhase::CreatingPipes, SupervisorEvent::CreateFailed(err)) =>
            (failed, SupervisorAction::Fail(err)),
        (SupervisorPhase::LaunchingWorker, SupervisorEvent::WorkerLaunched) =>
            (SupervisorPhase::AwaitingPeers, SupervisorAction::AwaitPeers),
        (SupervisorPhase::LaunchingWorker, SupervisorEvent::LaunchFailed) =>
            (failed, SupervisorAction::Fail(BridgeError::Spawn)),
        (SupervisorPhase::AwaitingPeers, SupervisorEvent::PeersConnected) =>
            (SupervisorPhase::Forwarding, SupervisorAction::StartForwarding),
        (SupervisorPhase::AwaitingPeers, SupervisorEvent::ConnectFailed(err)) =>
            (failed, SupervisorAction::Fail(err)),
        (SupervisorPhase::Forwarding, SupervisorEvent::OutputLoopEnded) =>
            (SupervisorPhase::OutputEnded, SupervisorAction::AwaitEnd),
        (SupervisorPhase::Forwarding, SupervisorEvent::WorkerExited(code)) =>
            (SupervisorPhase::WorkerGone(code), SupervisorAction::AwaitEnd),
        (SupervisorPhase::OutputEnded, SupervisorEvent::WorkerExited(code)) => supervisor_end(code),
        (SupervisorPhase::WorkerGone(code), SupervisorEvent::OutputLoopEnded) => supervisor_end(code),
        _ => (p, SupervisorAction::Ignore),
    }
}

/// Moves the supervisor's lifecycle on by one event and says what to do next.
pub fn supervisor_step(p: SupervisorPhase, e: SupervisorEvent) -> (r: (SupervisorPhase, SupervisorAction))
    ensures
        r == supervisor_rule(p, e),
{
    match (p, e) {
        (SupervisorPhase::CreatingPipes, SupervisorEvent::PipesCreated) =>
            (SupervisorPhase::LaunchingWorker, SupervisorAction::LaunchWorker),
        (SupervisorPhase::CreatingPipes, SupervisorEvent::CreateFailed(err)) =>
            (SupervisorPhase::Exited(FAILURE_EXIT_CODE), SupervisorAction::Fail(err)),
        (SupervisorPhase::LaunchingWorker, SupervisorEvent::WorkerLaunched) =>
            (SupervisorPhase::AwaitingPeers, SupervisorAction::AwaitPeers),
        (SupervisorPhase::LaunchingWorker, SupervisorEvent::LaunchFailed) =>
            (SupervisorPhase::Exited(FAILURE_EXIT_CODE), SupervisorAction::Fail(BridgeError::Spawn)),
        (SupervisorPhase::AwaitingPeers, SupervisorEvent::PeersConnected) =>
            (SupervisorPhase::Forwarding, SupervisorAction::StartForwarding),
        (SupervisorPhase::AwaitingPeers, SupervisorEvent::ConnectFailed(err)) =>
            (SupervisorPhase::Exited(FAILURE_EXIT_CODE), SupervisorAction::Fail(err)),
        (SupervisorPhase::Forwarding, SupervisorEvent::OutputLoopEnded) =>
            (SupervisorPhase::OutputEnded, SupervisorAction::AwaitEnd),
        (SupervisorPhase::Forwarding, SupervisorEvent::WorkerExited(code)) =>
            (SupervisorPhase::WorkerGone(code), SupervisorAction::AwaitEnd),
        (SupervisorPhase::OutputEnded, SupervisorEvent::WorkerExited(code)) => end_with(code),
        (SupervisorPhase::WorkerGone(code), SupervisorEvent::OutputLoopEnded) => end_with(code),
        _ => (p, SupervisorAction::Ignore),
    }
}

fn end_with(code: Option<u32>) -> (r: (SupervisorPhase, SupervisorAction))
    ensures
        r == supervisor_end(code),
{
    match supervisor_exit_code(code) {
        Ok(c) => (SupervisorPhase::Exited(c), SupervisorAction::Exit(c)),
        Err(err) => (SupervisorPhase::Exited(FAILURE_EXIT_CODE), SupervisorAction::Fail(err)),
    }
}

/// Once forwarding has started, the supervisor, whatever the order of
/// events, ends only after both the worker has exited and the loop that
/// copies the worker's output to standard output has reached its end, so no
/// tail of the output is cut off; and it ends with the worker's exit code.
pub proof fn lemma_supervisor_waits_for_output(p: SupervisorPhase, e: SupervisorEvent)
    requires
        p == SupervisorPhase::Forwarding || p == SupervisorPhase::OutputEnded || p is WorkerGone,
    ensures
        ({
            let (p2, a) = supervisor_rule(p, e);
            &&& (a is Exit || a is Fail) ==> (p == SupervisorPhase::OutputEnded && e is WorkerExited)
                || (p is WorkerGone && e == SupervisorEvent::OutputLoopEnded)
            &&& forall|code: u32| (p == SupervisorPhase::OutputEnded && e == SupervisorEvent::WorkerExited(Some(code)))
                || (p == SupervisorPhase::WorkerGone(Some(code)) && e == SupervisorEvent::OutputLoopEnded)
                ==> a == SupervisorAction::Exit(code)
        }),
{
}

} // verus!
