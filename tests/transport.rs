use pty_proxy::pipe::{
    classify_await_peer, classify_read, connect_decision, pipe_name, BridgeError, ConnectDecision,
    ConnectOutcome, CONNECT_ATTEMPTS, ERROR_BROKEN_PIPE, ERROR_FILE_NOT_FOUND, ERROR_PIPE_BUSY, ERROR_PIPE_CONNECTED,
};
use pty_proxy::relay::{
    on_pipe_read, output_step, polls_liveness, reads_terminal, OutputAction, OutputEvent, OutputPhase, PipeReadAction,
};

#[test]
fn pipe_name_prefixes_the_token() {
    assert_eq!(pipe_name("abc123"), r"\\.\pipe\ptyproxyabc123");
}

#[test]
fn successful_read_keeps_its_count() {
    assert_eq!(classify_read(true, 17, 0), Ok(17));
    assert_eq!(classify_read(true, 0, 0), Ok(0));
}

#[test]
fn broken_pipe_read_is_end_of_stream() {
    let r = classify_read(false, 0, ERROR_BROKEN_PIPE);
    assert_eq!(r, Ok(0));
    assert_eq!(on_pipe_read(r), PipeReadAction::EndOfStream);
}

#[test]
fn other_read_failure_is_an_io_error() {
    let r = classify_read(false, 0, 6);
    assert_eq!(r, Err(BridgeError::TransportIo(6)));
    assert_eq!(on_pipe_read(r), PipeReadAction::Fail(BridgeError::TransportIo(6)));
}

#[test]
fn data_read_is_delivered() {
    assert_eq!(on_pipe_read(Ok(5)), PipeReadAction::Deliver(5));
}

#[test]
fn connect_retries_while_server_is_missing() {
    assert_eq!(connect_decision(1, ConnectOutcome::Failed(ERROR_FILE_NOT_FOUND)), ConnectDecision::RetryAfter(20));
    assert_eq!(connect_decision(3, ConnectOutcome::Failed(ERROR_FILE_NOT_FOUND)), ConnectDecision::RetryAfter(60));
    assert_eq!(connect_decision(40, ConnectOutcome::Failed(ERROR_FILE_NOT_FOUND)), ConnectDecision::RetryAfter(500));
}

#[test]
fn connect_succeeds_once_server_is_ready() {
    let mut attempt: u32 = 1;
    let outcomes = [
        ConnectOutcome::Failed(ERROR_FILE_NOT_FOUND),
        ConnectOutcome::Failed(ERROR_FILE_NOT_FOUND),
        ConnectOutcome::Opened,
    ];
    let mut last = None;
    for o in outcomes {
        let d = connect_decision(attempt, o);
        last = Some(d);
        match d {
            ConnectDecision::RetryAfter(_) => attempt += 1,
            _ => break,
        }
    }
    assert_eq!(last, Some(ConnectDecision::Connected));
}

#[test]
fn connect_gives_up_only_on_other_errors() {
    assert_eq!(
        connect_decision(1, ConnectOutcome::Failed(5)),
        ConnectDecision::GiveUp(BridgeError::TransportConnect(5))
    );
    assert_eq!(
        connect_decision(1, ConnectOutcome::Failed(ERROR_PIPE_BUSY)),
        ConnectDecision::GiveUp(BridgeError::TransportConnect(ERROR_PIPE_BUSY))
    );
}

#[test]
fn connect_gives_up_when_the_pipe_never_appears() {
    assert_eq!(connect_decision(CONNECT_ATTEMPTS - 1, ConnectOutcome::Failed(ERROR_FILE_NOT_FOUND)), ConnectDecision::RetryAfter(500));
    assert_eq!(
        connect_decision(CONNECT_ATTEMPTS, ConnectOutcome::Failed(ERROR_FILE_NOT_FOUND)),
        ConnectDecision::GiveUp(BridgeError::TransportConnect(ERROR_FILE_NOT_FOUND))
    );
    let mut attempt: u32 = 1;
    let result = loop {
        match connect_decision(attempt, ConnectOutcome::Failed(ERROR_FILE_NOT_FOUND)) {
            ConnectDecision::RetryAfter(_) => attempt += 1,
            d => break d,
        }
    };
    assert_eq!(result, ConnectDecision::GiveUp(BridgeError::TransportConnect(ERROR_FILE_NOT_FOUND)));
    assert_eq!(attempt, CONNECT_ATTEMPTS);
}

#[test]
fn peer_that_connected_first_counts_as_connected() {
    assert_eq!(classify_await_peer(true, 0), Ok(()));
    assert_eq!(classify_await_peer(false, ERROR_PIPE_CONNECTED), Ok(()));
    assert_eq!(classify_await_peer(false, 6), Err(BridgeError::TransportConnect(6)));
}

#[test]
fn output_loop_drains_after_target_exit() {
    let (p, a) = output_step(OutputPhase::Forwarding, OutputEvent::Read(4));
    assert_eq!((p, a), (OutputPhase::Forwarding, OutputAction::ForwardAndLog));
    let (p, a) = output_step(p, OutputEvent::Read(0));
    assert_eq!((p, a), (OutputPhase::Forwarding, OutputAction::Continue));
    let (p, a) = output_step(p, OutputEvent::Alive(false));
    assert_eq!((p, a), (OutputPhase::Draining, OutputAction::TargetGone));
    assert!(reads_terminal(p) && !polls_liveness(p));
    let (p, a) = output_step(p, OutputEvent::Read(9));
    assert_eq!((p, a), (OutputPhase::Draining, OutputAction::Forward));
    let (p, a) = output_step(p, OutputEvent::Read(0));
    assert_eq!((p, a), (OutputPhase::Finished, OutputAction::Stop));
    assert_eq!(output_step(p, OutputEvent::Read(3)), (OutputPhase::Finished, OutputAction::Stop));
}

#[test]
fn output_loop_stops_on_failed_read_while_draining() {
    assert_eq!(output_step(OutputPhase::Draining, OutputEvent::ReadFailed), (OutputPhase::Finished, OutputAction::Stop));
    assert_eq!(output_step(OutputPhase::Draining, OutputEvent::ForwardFailed), (OutputPhase::Finished, OutputAction::Stop));
    assert_eq!(output_step(OutputPhase::Forwarding, OutputEvent::Alive(true)), (OutputPhase::Forwarding, OutputAction::Continue));
}

#[test]
fn output_failure_watches_the_target_until_it_is_gone() {
    let (p, a) = output_step(OutputPhase::Forwarding, OutputEvent::ReadFailed);
    assert_eq!((p, a), (OutputPhase::WatchingTarget, OutputAction::Continue));
    assert!(!reads_terminal(p) && polls_liveness(p));
    assert_eq!(output_step(p, OutputEvent::Alive(true)), (OutputPhase::WatchingTarget, OutputAction::Continue));
    assert_eq!(output_step(p, OutputEvent::Alive(false)), (OutputPhase::Finished, OutputAction::TargetGone));
    assert_eq!(
        output_step(OutputPhase::Forwarding, OutputEvent::ForwardFailed),
        (OutputPhase::WatchingTarget, OutputAction::Continue)
    );
    assert!(!reads_terminal(OutputPhase::Finished) && !polls_liveness(OutputPhase::Finished));
}
