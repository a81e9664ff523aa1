use vstd::prelude::*;

use crate::feedback::ExitKind;

verus! {

/// Where the conversation with the forkserver stands.
#[derive(Clone, Copy, Debug, PartialEq, Eq, Structural)]
pub enum ProtocolState {
    /// No child is running.
    Uninitialized,
    /// The child was spawned; its handshake has not been read yet.
    Spawned,
    /// The child is idle, awaiting the next input.
    ReadyForInput,
    /// An input was delivered and "go" was signalled; no status yet.
    AwaitingStatus,
    /// The child was torn down; nothing more happens.
    Terminated,
}

/// What the driver of the child observed.
#[derive(Clone, Copy, Debug, PartialEq, Eq, Structural)]
pub enum Event {
    /// The child process started.
    SpawnSucceeded,
    /// The child process could not be started.
    SpawnFailed,
    /// The four handshake bytes arrived.
    Handshake,
    /// The handshake read came back short or malformed.
    BadHandshake,
    /// The input was delivered, "go" was signalled and the forkserver
    /// answered with the id of the process that runs it.
    Started(i32),
    /// The raw wait status of the finished run arrived.
    Status(i32),
    /// The deadline passed before a status arrived.
    Deadline,
    /// The run is over.
    Shutdown,
}

/// Why the conversation cannot go on.
#[derive(Clone, Copy, Debug, PartialEq, Eq, Structural)]
pub enum FatalError {
    SpawnFailed,
    BadHandshake,
    BadChildPid,
    /// An event that the current state does not expect.
    Desynchronized,
}

/// What the driver must do next.
#[derive(Clone, Copy, Debug, PartialEq, Eq, Structural)]
pub enum Action {
    /// Read the handshake of the fresh child.
    AwaitHandshake,
    /// Deliver the next input and signal "go".
    DeliverInput,
    /// Wait for the status, at most until the deadline.
    AwaitStatus,
    /// The run ended this way; the child is ready for the next input.
    Report(ExitKind),
    /// Send the termination signal, report a timeout, and respawn the
    /// child before the next input.
    KillAndRespawn,
    /// Release the shared region and the child.
    Release,
    /// Stop the whole run.
    Abort(FatalError),
}

/// The wait status says that the process was stopped by a signal.
pub open spec fn signaled(status: i32) -> bool {
    let sig = (status as u32) & 0x7f;
    sig != 0 && sig != 0x7f
}

/// How a run ended, from its raw wait status.
pub open spec fn exit_kind_of(status: i32) -> ExitKind {
    if signaled(status) {
        ExitKind::Crash
    } else {
        ExitKind::Normal
    }
}

/// The protocol's transition table.
pub open spec fn next(s: ProtocolState, e: Event) -> (ProtocolState, Action) {
    match (s, e) {
        (_, Event::Shutdown) => (ProtocolState::Terminated, Action::Release),
        (ProtocolState::Terminated, _) => (
            ProtocolState::Terminated,
            Action::Abort(FatalError::Desynchronized),
        ),
        (ProtocolState::Uninitialized, Event::SpawnSucceeded) => (
            ProtocolState::Spawned,
            Action::AwaitHandshake,
        ),
        (ProtocolState::Uninitialized, Event::SpawnFailed) => (
            ProtocolState::Terminated,
            Action::Abort(FatalError::SpawnFailed),
        ),
        (ProtocolState::Spawned, Event::Handshake) => (
            ProtocolState::ReadyForInput,
            Action::DeliverInput,
        ),
        (ProtocolState::Spawned, Event::BadHandshake) => (
            ProtocolState::Terminated,
            Action::Abort(FatalError::BadHandshake),
        ),
        (ProtocolState::ReadyForInput, Event::Started(pid)) => {
            if pid > 0 {
                (ProtocolState::AwaitingStatus, Action::AwaitStatus)
            } else {
                (ProtocolState::Terminated, Action::Abort(FatalError::BadChildPid))
            }
        },
        (ProtocolState::AwaitingStatus, Event::Status(status)) => (
            ProtocolState::ReadyForInput,
            Action::Report(exit_kind_of(status)),
        ),
        (ProtocolState::AwaitingStatus, Event::Deadline) => (
            ProtocolState::Uninitialized,
            Action::KillAndRespawn,
        ),
        _ => (ProtocolState::Terminated, Action::Abort(FatalError::Desynchronized)),
    }
}

/// Classifies a raw wait status: a run stopped by a signal is a crash.
pub fn classify_status(status: i32) -> (r: ExitKind)
    ensures
        r == exit_kind_of(status),
{
    let sig = (status as u32) & 0x7f;
    if sig != 0 && sig != 0x7f {
        ExitKind::Crash
    } else {
        ExitKind::Normal
    }
}

/// One step of the protocol: the next state and what the driver must do.
/// A fatal step always lands in [`ProtocolState::Terminated`]; a timeout
/// always sends the child back to [`ProtocolState::Uninitialized`].
pub fn transition(s: ProtocolState, e: Event) -> (r: (ProtocolState, Action))
    ensures
        r == next(s, e),
        r.1 matches Action::Abort(_) ==> r.0 == ProtocolState::Terminated,
        r.1 == Action::KillAndRespawn ==> r.0 == ProtocolState::Uninitialized,
{
    match (s, e) {
        (_, Event::Shutdown) => (ProtocolState::Terminated, Action::Release),
        (ProtocolState::Terminated, _) => (
            ProtocolState::Terminated,
            Action::Abort(FatalError::Desynchronized),
        ),
        (ProtocolState::Uninitialized, Event::SpawnSucceeded) => (
            ProtocolState::Spawned,
            Action::AwaitHandshake,
        ),
        (ProtocolState::Uninitialized, Event::SpawnFailed) => (
            ProtocolState::Terminated,
            Action::Abort(FatalError::SpawnFailed),
        ),
        (ProtocolState::Spawned, Event::Handshake) => (
            ProtocolState::ReadyForInput,
            Action::DeliverInput,
        ),
        (ProtocolState::Spawned, Event::BadHandshake) => (
            ProtocolState::Terminated,
            Action::Abort(FatalError::BadHandshake),
        ),
        (ProtocolState::ReadyForInput, Event::Started(pid)) => {
            if pid > 0 {
                (ProtocolState::AwaitingStatus, Action::AwaitStatus)
            } else {
                (ProtocolState::Terminated, Action::Abort(FatalError::BadChildPid))
            }
        },
        (ProtocolState::AwaitingStatus, Event::Status(status)) => (
            ProtocolState::ReadyForInput,
            Action::Report(classify_status(status)),
        ),
        (ProtocolState::AwaitingStatus, Event::Deadline) => (
            ProtocolState::Uninitialized,
            Action::KillAndRespawn,
        ),
        _ => (ProtocolState::Terminated, Action::Abort(FatalError::Desynchronized)),
    }
}

} // verus!
