use pty_proxy::lifecycle::{
    supervisor_exit_code, supervisor_step, worker_exit_code, SupervisorAction, SupervisorEvent,
    SupervisorPhase, WorkerAction, WorkerEvent, WorkerPhase, WorkerState, FAILURE_EXIT_CODE,
};
use pty_proxy::pipe::BridgeError;

fn running_worker() -> WorkerState {
    let mut w = WorkerState::new();
    assert_eq!(w.step(WorkerEvent::PipesConnected), WorkerAction::SpawnTerminal);
    assert_eq!(w.step(WorkerEvent::TerminalSpawned), WorkerAction::StartLoops);
    assert_eq!(w.step(WorkerEvent::LoopsStarted), WorkerAction::AwaitLoops);
    w
}

fn forwarding_supervisor() -> SupervisorPhase {
    let mut p = SupervisorPhase::CreatingPipes;
    for e in [SupervisorEvent::PipesCreated, SupervisorEvent::WorkerLaunched, SupervisorEvent::PeersConnected] {
        p = supervisor_step(p, e).0;
    }
    assert_eq!(p, SupervisorPhase::Forwarding);
    p
}

#[test]
fn exit_code_seven_propagates() {
    let mut w = running_worker();
    assert_eq!(w.step(WorkerEvent::TargetExited), WorkerAction::AwaitLoops);
    assert_eq!(w.step(WorkerEvent::OutputLoopDone), WorkerAction::QueryExitStatus);
    assert_eq!(w.step(WorkerEvent::ExitStatus(Some(7))), WorkerAction::Exit(7));
    assert_eq!(w.phase, WorkerPhase::Exited(7));

    let p = forwarding_supervisor();
    let (p, a) = supervisor_step(p, SupervisorEvent::WorkerExited(Some(7)));
    assert_eq!((p, a), (SupervisorPhase::WorkerGone(Some(7)), SupervisorAction::AwaitEnd));
    assert_eq!(supervisor_step(p, SupervisorEvent::OutputLoopEnded), (SupervisorPhase::Exited(7), SupervisorAction::Exit(7)));
}

#[test]
fn supervisor_exits_after_output_end_in_either_order() {
    let p = forwarding_supervisor();
    let (p, a) = supervisor_step(p, SupervisorEvent::OutputLoopEnded);
    assert_eq!((p, a), (SupervisorPhase::OutputEnded, SupervisorAction::AwaitEnd));
    assert_eq!(supervisor_step(p, SupervisorEvent::WorkerExited(Some(7))), (SupervisorPhase::Exited(7), SupervisorAction::Exit(7)));
}

#[test]
fn input_loop_end_alone_does_not_end_the_worker() {
    let mut w = running_worker();
    assert_eq!(w.step(WorkerEvent::InputLoopDone), WorkerAction::AwaitLoops);
    assert_eq!(w.step(WorkerEvent::ExitStatus(Some(3))), WorkerAction::Ignore);
    assert_eq!(w.step(WorkerEvent::TargetExited), WorkerAction::AwaitLoops);
    assert_eq!(w.step(WorkerEvent::OutputLoopDone), WorkerAction::QueryExitStatus);
    assert_eq!(w.step(WorkerEvent::ExitStatus(Some(3))), WorkerAction::Exit(3));
}

#[test]
fn output_loop_failure_waits_for_target_exit() {
    let mut w = running_worker();
    assert_eq!(w.step(WorkerEvent::InputLoopDone), WorkerAction::AwaitLoops);
    assert_eq!(w.step(WorkerEvent::OutputLoopDone), WorkerAction::AwaitLoops);
    assert_eq!(w.step(WorkerEvent::ExitStatus(None)), WorkerAction::Ignore);
    assert_eq!(w.step(WorkerEvent::TargetExited), WorkerAction::QueryExitStatus);
    assert_eq!(w.step(WorkerEvent::ExitStatus(None)), WorkerAction::Exit(FAILURE_EXIT_CODE));
}

#[test]
fn startup_failures_end_the_worker_with_failure_code() {
    let mut w = WorkerState::new();
    assert_eq!(w.step(WorkerEvent::ConnectFailed(BridgeError::TransportConnect(2))), WorkerAction::Exit(FAILURE_EXIT_CODE));
    let mut w = WorkerState::new();
    w.step(WorkerEvent::PipesConnected);
    assert_eq!(w.step(WorkerEvent::SpawnFailed), WorkerAction::Exit(101));
}

#[test]
fn missing_exit_status_gives_sentinel() {
    assert_eq!(worker_exit_code(None), 101);
    assert_eq!(worker_exit_code(Some(0)), 0);
    assert_eq!(supervisor_exit_code(None), Err(BridgeError::ExitStatusUnavailable));
    assert_eq!(supervisor_exit_code(Some(42)), Ok(42));
}

#[test]
fn supervisor_startup_failures() {
    assert_eq!(
        supervisor_step(SupervisorPhase::CreatingPipes, SupervisorEvent::CreateFailed(BridgeError::TransportCreate(231))),
        (SupervisorPhase::Exited(101), SupervisorAction::Fail(BridgeError::TransportCreate(231)))
    );
    assert_eq!(
        supervisor_step(SupervisorPhase::LaunchingWorker, SupervisorEvent::LaunchFailed),
        (SupervisorPhase::Exited(101), SupervisorAction::Fail(BridgeError::Spawn))
    );
    assert_eq!(
        supervisor_step(SupervisorPhase::AwaitingPeers, SupervisorEvent::ConnectFailed(BridgeError::TransportConnect(109))),
        (SupervisorPhase::Exited(101), SupervisorAction::Fail(BridgeError::TransportConnect(109)))
    );
    assert_eq!(
        supervisor_step(SupervisorPhase::WorkerGone(None), SupervisorEvent::OutputLoopEnded),
        (SupervisorPhase::Exited(101), SupervisorAction::Fail(BridgeError::ExitStatusUnavailable))
    );
    assert_eq!(
        supervisor_step(SupervisorPhase::CreatingPipes, SupervisorEvent::PeersConnected),
        (SupervisorPhase::CreatingPipes, SupervisorAction::Ignore)
    );
}
