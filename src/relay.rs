//! The forwarding loops' decisions. Each loop performs its reads and writes
//! outside; for every result it gets, it asks these functions what to do.
use vstd::prelude::*;
use crate::pipe::{BridgeError, ERROR_BROKEN_PIPE, read_result};

verus! {

/// What a loop that reads a pipe does with the result of one read.
#[derive(Clone, Copy, Debug, PartialEq, Eq, Structural)]
pub enum PipeReadAction {
    /// Hand the first `n` bytes read to the other side, then read again.
    Deliver(usize),
    /// The peer closed its end: the loop ends normally.
    EndOfStream,
    /// The read failed: the loop ends, treating the peer as gone.
    Fail(BridgeError),
}

pub open spec fn pipe_read_rule(r: Result<usize, BridgeError>) -> PipeReadAction {
    match r {
        Ok(n) => if n == 0 {
            PipeReadAction::EndOfStream
        } else {
            PipeReadAction::Deliver(n)
        },
        Err(e) => PipeReadAction::Fail(e),
    }
}

/// Decides what a pipe-reading loop does with one read result.
pub fn on_pipe_read(r: Result<usize, BridgeError>) -> (a: PipeReadAction)
    ensures
        a == pipe_read_rule(r),
{
    match r {
        Ok(n) => if n == 0 {
            PipeReadAction::EndOfStream
        } else {
            PipeReadAction::Deliver(n)
        },
        Err(e) => PipeReadAction::Fail(e),
    }
}

/// One read on a pipe as the reading loop sees it: the bytes it got (none
/// when the peer has closed), or a failure with its error code.
pub enum PipeRead {
    Bytes(Seq<u8>),
    Failed(u32),
}

/// The count a read reports for the bytes `b` it got.
pub open spec fn read_count(b: Seq<u8>) -> usize {
    if b.len() <= usize::MAX {
        b.len() as usize
    } else {
        usize::MAX
    }
}

pub open spec fn pipe_read_result(r: PipeRead) -> Result<usize, BridgeError> {
    match r {
        PipeRead::Bytes(b) => Ok(read_count(b)),
        PipeRead::Failed(code) => Err(BridgeError::TransportIo(code)),
    }
}

/// The bytes a pipe-reading loop hands on, read after read, until it stops.
pub open spec fn relay_delivered(reads: Seq<PipeRead>) -> Seq<u8>
    decreases reads.len(),
{
    if reads.len() == 0 {
        Seq::empty()
    } else {
        match reads[0] {
            PipeRead::Bytes(b) => match pipe_read_rule(pipe_read_result(reads[0])) {
                PipeReadAction::Deliver(_) => b + relay_delivered(reads.drop_first()),
                _ => Seq::empty(),
            },
            PipeRead::Failed(_) => Seq::empty(),
        }
    }
}

/// The bytes the peer wrote into the pipe before it closed it or the pipe failed.
pub open spec fn pipe_stream(reads: Seq<PipeRead>) -> Seq<u8>
    decreases reads.len(),
{
    if reads.len() == 0 {
        Seq::empty()
    } else {
        match reads[0] {
            PipeRead::Bytes(b) => if b.len() == 0 {
                Seq::empty()
            } else {
                b + pipe_stream(reads.drop_first())
            },
            PipeRead::Failed(_) => Seq::empty(),
        }
    }
}

/// Whatever the peer writes into a pipe reaches the other side in order,
/// without gaps or repeats, up to the point where the peer closes the pipe or
/// it fails: this holds of the worker's loop from its inbound pipe to the
/// terminal's input and of the supervisor's loop from its pipe to standard output.
pub proof fn lemma_pipe_relay_passes_through(reads: Seq<PipeRead>)
    ensures
        relay_delivered(reads) == pipe_stream(reads),
    decreases reads.len(),
{
    if reads.len() > 0 {
        lemma_pipe_relay_passes_through(reads.drop_first());
    }
}

/// A read that fails because the peer closed its end of the pipe ends the
/// reading loop normally, as the end of the stream, and not as an error.
pub proof fn lemma_closed_peer_ends_stream(bytes_read: u32)
    ensures
        pipe_read_rule(read_result(false, bytes_read, ERROR_BROKEN_PIPE)) == PipeReadAction::EndOfStream,
{
}

/// Phases of the worker's loop that carries terminal output to its outbound pipe.
#[derive(Clone, Copy, Debug, PartialEq, Eq, Structural)]
pub enum OutputPhase {
    /// The target runs: output is forwarded and logged; liveness is polled.
    Forwarding,
    /// The target has exited: what is left in the terminal is forwarded until
    /// a read comes back empty or fails.
    Draining,
    /// Reading or forwarding failed while the target ran: nothing more is
    /// read, and liveness is polled until the target is gone.
    WatchingTarget,
    /// The loop has ended.
    Finished,
}

/// What the output loop learned: a terminal read that gave `n` bytes (none
/// when it timed out or nothing is left), a failed terminal read, a failed
/// write to the outbound pipe, or the target's liveness (a poll that fails
/// counts as not alive).
#[derive(Clone, Copy, Debug, PartialEq, Eq, Structural)]
pub enum OutputEvent {
    Read(usize),
    ReadFailed,
    ForwardFailed,
    Alive(bool),
}

#[derive(Clone, Copy, Debug, PartialEq, Eq, Structural)]
pub enum OutputAction {
    /// Nothing to do; continue.
    Continue,
    /// Write the chunk to the outbound pipe and hand it to the log.
    ForwardAndLog,
    /// Write the chunk to the outbound pipe.
    Forward,
    /// Report that the target was seen to exit.
    TargetGone,
    /// Leave the loop.
    Stop,
}

/// Whether the loop reads the terminal in `phase`.
pub open spec fn reads_in(phase: OutputPhase) -> bool {
    phase == OutputPhase::Forwarding || phase == OutputPhase::Draining
}

/// Whether the loop polls the target's liveness in `phase`.
pub open spec fn polls_in(phase: OutputPhase) -> bool {
    phase == OutputPhase::Forwarding || phase == OutputPhase::WatchingTarget
}

pub fn reads_terminal(phase: OutputPhase) -> (r: bool)
    ensures
        r == reads_in(phase),
{
    phase == OutputPhase::Forwarding || phase == OutputPhase::Draining
}

pub fn polls_liveness(phase: OutputPhase) -> (r: bool)
    ensures
        r == polls_in(phase),
{
    phase == OutputPhase::Forwarding || phase == OutputPhase::WatchingTarget
}

pub open spec fn output_rule(phase: OutputPhase, event: OutputEvent) -> (OutputPhase, OutputAction) {
    match phase {
        OutputPhase::Forwarding => match event {
            OutputEvent::Read(n) => if n == 0 {
                (OutputPhase::Forwarding, OutputAction::Continue)
            } else {
                (OutputPhase::Forwarding, OutputAction::ForwardAndLog)
            },
            OutputEvent::ReadFailed => (OutputPhase::WatchingTarget, OutputAction::Continue),
            OutputEvent::ForwardFailed => (OutputPhase::WatchingTarget, OutputAction::Continue),
            OutputEvent::Alive(alive) => if alive {
                (OutputPhase::Forwarding, OutputAction::Continue)
            } else {
                (OutputPhase::Draining, OutputAction::TargetGone)
            },
        },
        OutputPhase::Draining => match event {
            OutputEvent::Read(n) => if n == 0 {
                (OutputPhase::Finished, OutputAction::Stop)
            } else {
                (OutputPhase::Draining, OutputAction::Forward)
            },
            OutputEvent::ReadFailed => (OutputPhase::Finished, OutputAction::Stop),
            OutputEvent::ForwardFailed => (OutputPhase::Finished, OutputAction::Stop),
            OutputEvent::Alive(_) => (OutputPhase::Draining, OutputAction::Continue),
        },
        OutputPhase::WatchingTarget => match event {
            OutputEvent::Alive(alive) => if alive {
                (OutputPhase::WatchingTarget, OutputAction::Continue)
            } else {
                (OutputPhase::Finished, OutputAction::TargetGone)
            },
            _ => (OutputPhase::WatchingTarget, OutputAction::Continue),
        },
        OutputPhase::Finished => (OutputPhase::Finished, OutputAction::Stop),
    }
}

/// Decides the output loop's next phase and action on one event.
pub fn output_step(phase: OutputPhase, event: OutputEvent) -> (r: (OutputPhase, OutputAction))
    ensures
        r == output_rule(phase, event),
{
    match phase {
        OutputPhase::Forwarding => match event {
            OutputEvent::Read(n) => if n == 0 {
                (OutputPhase::Forwarding, OutputAction::Continue)
            } else {
                (OutputPhase::Forwarding, OutputAction::ForwardAndLog)
            },
            OutputEvent::ReadFailed => (OutputPhase::WatchingTarget, OutputAction::Continue),
            OutputEvent::ForwardFailed => (OutputPhase::WatchingTarget, OutputAction::Continue),
            OutputEvent::Alive(alive) => if alive {
                (OutputPhase::Forwarding, OutputAction::Continue)
            } else {
                (OutputPhase::Draining, OutputAction::TargetGone)
            },
        },
        OutputPhase::Draining => match event {
            OutputEvent::Read(n) => if n == 0 {
                (OutputPhase::Finished, OutputAction::Stop)
            } else {
                (OutputPhase::Draining, OutputAction::Forward)
            },
            OutputEvent::ReadFailed => (OutputPhase::Finished, OutputAction::Stop),
            OutputEvent::ForwardFailed => (OutputPhase::Finished, OutputAction::Stop),
            OutputEvent::Alive(_) => (OutputPhase::Draining, OutputAction::Continue),
        },
        OutputPhase::WatchingTarget => match event {
            OutputEvent::Alive(alive) => if alive {
                (OutputPhase::WatchingTarget, OutputAction::Continue)
            } else {
                (OutputPhase::Finished, OutputAction::TargetGone)
            },
            _ => (OutputPhase::WatchingTarget, OutputAction::Continue),
        },
        OutputPhase::Finished => (OutputPhase::Finished, OutputAction::Stop),
    }
}

/// The output loop ends only once the target is gone: it finishes either
/// from draining, which it enters when the target is seen to exit, or on a
/// poll that finds the target gone; and each of those two sightings is
/// reported exactly where the loop leaves a phase in which the target ran.
pub proof fn lemma_output_ends_after_target(phase: OutputPhase, event: OutputEvent)
    ensures
        ({
            let (p2, a) = output_rule(phase, event);
            &&& p2 == OutputPhase::Finished && phase != OutputPhase::Finished ==>
                phase == OutputPhase::Draining || event == OutputEvent::Alive(false)
            &&& (phase == OutputPhase::Forwarding || phase == OutputPhase::WatchingTarget)
                && event == OutputEvent::Alive(false) ==> a == OutputAction::TargetGone
            &&& a == OutputAction::TargetGone ==> event == OutputEvent::Alive(false)
        }),
{
}

/// What happened to the output loop, with the bytes of each terminal read.
pub enum OutputTrace {
    Read(Seq<u8>),
    ReadFailed,
    ForwardFailed,
    Alive(bool),
}

pub open spec fn trace_event(t: OutputTrace) -> OutputEvent {
    match t {
        OutputTrace::Read(b) => OutputEvent::Read(read_count(b)),
        OutputTrace::ReadFailed => OutputEvent::ReadFailed,
        OutputTrace::ForwardFailed => OutputEvent::ForwardFailed,
        OutputTrace::Alive(a) => OutputEvent::Alive(a),
    }
}

pub open spec fn trace_bytes(t: OutputTrace) -> Seq<u8> {
    match t {
        OutputTrace::Read(b) => b,
        _ => Seq::empty(),
    }
}

/// The output loop run over `trace` from `phase`: the phase it ends in, the
/// bytes it handed to the outbound pipe, and the bytes the terminal gave it
/// in the phases in which it reads.
pub open spec fn output_run(phase: OutputPhase, trace: Seq<OutputTrace>) -> (OutputPhase, Seq<u8>, Seq<u8>)
    decreases trace.len(),
{
    if trace.len() == 0 {
        (phase, Seq::empty(), Seq::empty())
    } else {
        let (p, sent, emitted) = output_run(phase, trace.drop_last());
        let t = trace.last();
        let (p2, action) = output_rule(p, trace_event(t));
        let sent2 = match action {
            OutputAction::ForwardAndLog => sent + trace_bytes(t),
            OutputAction::Forward => sent + trace_bytes(t),
            _ => sent,
        };
        let emitted2 = if reads_in(p) {
            emitted + trace_bytes(t)
        } else {
            emitted
        };
        (p2, sent2, emitted2)
    }
}

/// Every byte the terminal hands the output loop reaches the outbound pipe,
/// in order, including what is read after the target has exited: the
/// draining reads drop no trailing chunk.
pub proof fn lemma_output_passes_through(phase: OutputPhase, trace: Seq<OutputTrace>)
    ensures
        output_run(phase, trace).1 == output_run(phase, trace).2,
    decreases trace.len(),
{
    if trace.len() > 0 {
        lemma_output_passes_through(phase, trace.drop_last());
        let t = trace.last();
        let (p, sent, emitted) = output_run(phase, trace.drop_last());
        if trace_bytes(t).len() == 0 {
            assert(sent + trace_bytes(t) =~= sent);
            assert(emitted + trace_bytes(t) =~= emitted);
        }
    }
}

} // verus!
