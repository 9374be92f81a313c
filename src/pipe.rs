//! Named-pipe transport: the name each process derives from a token, how a
//! raw read result is read, and when the connecting side retries.
use vstd::prelude::*;

verus! {

/// System error code of a read on a pipe whose other end has closed.
pub const ERROR_BROKEN_PIPE: u32 = 109;
/// System error code of an open on a pipe name that does not exist yet.
pub const ERROR_FILE_NOT_FOUND: u32 = 2;
/// System error code of an open on a pipe whose instances are all taken.
pub const ERROR_PIPE_BUSY: u32 = 231;

/// How many attempts the connecting side makes to open a pipe that does not
/// exist yet before it gives up (about 23 s of pauses in all).
pub const CONNECT_ATTEMPTS: u32 = 60;

/// System error code of a wait for a client that had already connected.
pub const ERROR_PIPE_CONNECTED: u32 = 535;
/// Growth of the pause between two connection attempts, in milliseconds.
pub const RETRY_STEP_MS: u64 = 20;
/// Longest pause between two connection attempts, in milliseconds.
pub const RETRY_CAP_MS: u64 = 500;

/// The failures of the bridge, each with the system error code where one exists.
#[derive(Clone, Copy, Debug, PartialEq, Eq, Structural)]
pub enum BridgeError {
    /// A server pipe could not be created (name taken, resources exhausted).
    TransportCreate(u32),
    /// A pipe could not be opened or its peer never connected.
    TransportConnect(u32),
    /// A read or write failed mid-session for another reason than a closed peer.
    TransportIo(u32),
    /// The target program could not be started inside the terminal.
    Spawn,
    /// The exit status of the terminal or of the worker could not be obtained.
    ExitStatusUnavailable,
}

pub open spec fn pipe_prefix() -> Seq<char> {
    "\\\\.\\pipe\\ptyproxy"@
}

/// The system-visible name of the pipe identified by `token`.
pub fn pipe_name(token: &str) -> (r: String)
    ensures
        r@ == pipe_prefix() + token@,
{
    let mut name = String::from_str("\\\\.\\pipe\\ptyproxy");
    name.append(token);
    name
}

pub open spec fn read_result(succeeded: bool, bytes_read: u32, error_code: u32) -> Result<usize, BridgeError> {
    if succeeded {
        Ok(bytes_read as usize)
    } else if error_code == ERROR_BROKEN_PIPE {
        Ok(0)
    } else {
        Err(BridgeError::TransportIo(error_code))
    }
}

/// What a pipe read amounts to, given what the system call reported: whether
/// it succeeded, how many bytes it read, and the error code when it failed.
/// A closed peer is the end of the stream: zero bytes, not an error.
pub fn classify_read(succeeded: bool, bytes_read: u32, error_code: u32) -> (r: Result<usize, BridgeError>)
    ensures
        r == read_result(succeeded, bytes_read, error_code),
{
    if succeeded {
        Ok(bytes_read as usize)
    } else if error_code == ERROR_BROKEN_PIPE {
        Ok(0)
    } else {
        Err(BridgeError::TransportIo(error_code))
    }
}

/// What waiting for the client of a server pipe amounts to, given whether the
/// system call succeeded and its error code: a client that connected before
/// the wait began is connected too.
pub open spec fn await_result(succeeded: bool, error_code: u32) -> Result<(), BridgeError> {
    if succeeded || error_code == ERROR_PIPE_CONNECTED {
        Ok(())
    } else {
        Err(BridgeError::TransportConnect(error_code))
    }
}

pub fn classify_await_peer(succeeded: bool, error_code: u32) -> (r: Result<(), BridgeError>)
    ensures
        r == await_result(succeeded, error_code),
{
    if succeeded || error_code == ERROR_PIPE_CONNECTED {
        Ok(())
    } else {
        Err(BridgeError::TransportConnect(error_code))
    }
}

/// What one attempt to open a pipe by name gave.
#[derive(Clone, Copy, Debug, PartialEq, Eq, Structural)]
pub enum ConnectOutcome {
    Opened,
    Failed(u32),
}

/// What the connecting side does next.
#[derive(Clone, Copy, Debug, PartialEq, Eq, Structural)]
pub enum ConnectDecision {
    Connected,
    RetryAfter(u64),
    GiveUp(BridgeError),
}

/// The failure that means the server side has not created the pipe yet. A
/// busy pipe is no such failure: its only instance already has a client.
pub open spec fn not_ready(code: u32) -> bool {
    code == ERROR_FILE_NOT_FOUND
}

/// An attempt that found no server ready.
pub open spec fn not_ready_failure(o: ConnectOutcome) -> bool {
    match o {
        ConnectOutcome::Failed(code) => not_ready(code),
        ConnectOutcome::Opened => false,
    }
}

/// The pause after attempt number `attempt`: `RETRY_STEP_MS` more for each
/// attempt, up to `RETRY_CAP_MS`.
pub open spec fn retry_delay(attempt: u32) -> u64 {
    if attempt as int * RETRY_STEP_MS as int >= RETRY_CAP_MS as int {
        RETRY_CAP_MS
    } else {
        (attempt as int * RETRY_STEP_MS as int) as u64
    }
}

pub open spec fn connect_rule(attempt: u32, outcome: ConnectOutcome) -> ConnectDecision {
    match outcome {
        ConnectOutcome::Opened => ConnectDecision::Connected,
        ConnectOutcome::Failed(code) => if not_ready(code) && attempt < CONNECT_ATTEMPTS {
            ConnectDecision::RetryAfter(retry_delay(attempt))
        } else {
            ConnectDecision::GiveUp(BridgeError::TransportConnect(code))
        },
    }
}

/// A busy pipe, or one still missing after `CONNECT_ATTEMPTS` attempts, ends
/// the attempts with a failure: the worker then gives up.
pub proof fn lemma_connect_gives_up(attempt: u32, code: u32)
    requires
        code == ERROR_PIPE_BUSY || (code == ERROR_FILE_NOT_FOUND && attempt >= CONNECT_ATTEMPTS),
    ensures
        connect_rule(attempt, ConnectOutcome::Failed(code)) == ConnectDecision::GiveUp(BridgeError::TransportConnect(code)),
{
}

/// Decides what follows attempt number `attempt` (counting from 1) to open a
/// pipe: a pipe that does not exist yet is waited for with a growing pause,
/// for at most `CONNECT_ATTEMPTS` attempts; a busy pipe, any other failure,
/// or a pipe still missing at the last attempt ends the attempts.
pub fn connect_decision(attempt: u32, outcome: ConnectOutcome) -> (r: ConnectDecision)
    ensures
        r == connect_rule(attempt, outcome),
{
    match outcome {
        ConnectOutcome::Opened => ConnectDecision::Connected,
        ConnectOutcome::Failed(code) => {
            if code == ERROR_FILE_NOT_FOUND && attempt < CONNECT_ATTEMPTS {
                let delay: u64 = if attempt as u64 >= RETRY_CAP_MS / RETRY_STEP_MS {
                    RETRY_CAP_MS
                } else {
                    attempt as u64 * RETRY_STEP_MS
                };
                ConnectDecision::RetryAfter(delay)
            } else {
                ConnectDecision::GiveUp(BridgeError::TransportConnect(code))
            }
        },
    }
}

/// The decision that ends a run of attempts, the first being number `attempt`
/// and each attempt giving the next outcome of `outcomes`; `None` when the
/// outcomes run out while the side is still retrying.
pub open spec fn connect_result(attempt: u32, outcomes: Seq<ConnectOutcome>) -> Option<ConnectDecision>
    decreases outcomes.len(),
{
    if outcomes.len() == 0 {
        None
    } else {
        match connect_rule(attempt, outcomes[0]) {
            ConnectDecision::RetryAfter(_) => connect_result((attempt + 1) as u32, outcomes.drop_first()),
            d => Some(d),
        }
    }
}

/// A worker that tries to open its pipe before the supervisor has created it
/// keeps trying, and connects as soon as the pipe is there, provided that
/// happens within `CONNECT_ATTEMPTS` attempts: after any `k` attempts that
/// found no pipe (`k < CONNECT_ATTEMPTS`), an attempt that opens the pipe
/// ends the run with `Connected`, never with a failure.
pub proof fn lemma_connect_waits_for_server(k: nat, outcomes: Seq<ConnectOutcome>)
    requires
        k < CONNECT_ATTEMPTS,
        outcomes.len() > k,
        forall|i: int| 0 <= i < k ==> not_ready_failure(#[trigger] outcomes[i]),
        outcomes[k as int] == ConnectOutcome::Opened,
    ensures
        connect_result(1, outcomes) == Some(ConnectDecision::Connected),
{
    lemma_connect_from(1, k, outcomes);
}

proof fn lemma_connect_from(attempt: u32, k: nat, outcomes: Seq<ConnectOutcome>)
    requires
        1 <= attempt,
        attempt + k <= CONNECT_ATTEMPTS,
        outcomes.len() > k,
        forall|i: int| 0 <= i < k ==> not_ready_failure(#[trigger] outcomes[i]),
        outcomes[k as int] == ConnectOutcome::Opened,
    ensures
        connect_result(attempt, outcomes) == Some(ConnectDecision::Connected),
    decreases k,
{
    if k > 0 {
        let rest = outcomes.drop_first();
        assert(not_ready_failure(outcomes[0]));
        assert forall|i: int| 0 <= i < k - 1 implies not_ready_failure(#[trigger] rest[i]) by {
            assert(rest[i] == outcomes[i + 1]);
        }
        assert(rest[k - 1] == outcomes[k as int]);
        lemma_connect_from((attempt + 1) as u32, (k - 1) as nat, rest);
    }
}

} // verus!
