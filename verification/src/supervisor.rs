//! The connection supervisor's decision core.
//!
//! The supervisor owns the socket lifecycle: connect, read, idle-detect,
//! reconnect, shut down. Every decision it takes — what to do when a
//! connect attempt fails, a frame arrives, the stream stalls or a shutdown
//! is requested — is the pure step function here; the loop around it only
//! performs the chosen action and reports the resulting event. Shutdown is
//! observed at every suspension point, and only shutdown terminates the
//! loop: any other failure ends in a bounded wait and another attempt.

use vstd::prelude::*;

use crate::bytes::find_byte_from;

verus! {

/// No frame for this long (seconds) counts as a dead connection, socket
/// error or not: silent upstream stalls must force a reconnect.
pub const IDLE_TIMEOUT_SECONDS: u64 = 20;

/// The wait before retrying after a failed connect attempt (seconds).
pub const CONNECT_RETRY_SECONDS: u64 = 7;

/// The wait before reconnecting after a dropped connection (seconds).
pub const RECONNECT_DELAY_SECONDS: u64 = 5;

/// Where the supervisor stands. A backoff carries the wait it still owes.
#[derive(Debug, Clone, Copy, PartialEq, Eq, Structural)]
pub enum SupervisorState {
    Connecting,
    Connected,
    Backoff(u64),
    Terminated,
}

/// What the loop observed at its current suspension point.
#[derive(Debug, Clone, Copy, PartialEq, Eq, Structural)]
pub enum SupEvent {
    ShutdownRequested,
    ConnectSucceeded,
    ConnectFailed,
    FrameReceived,
    ReadError,
    StreamClosed,
    IdleTimeout,
    RetryDelayElapsed,
}

/// What the loop must do next.
#[derive(Debug, Clone, Copy, PartialEq, Eq, Structural)]
pub enum SupAction {
    /// Build the upgrade request and attempt the connection.
    AttemptConnect,
    /// Wait this many seconds (or a shutdown, whichever first).
    WaitRetry(u64),
    /// Read the next frame, bounded by the idle timeout.
    ReadNextFrame,
    /// Send a close frame, then return.
    SendCloseAndStop,
    /// Return without a close frame: no connection is open.
    Stop,
}

/// The action a state is waiting on; an event that does not belong to it
/// leaves the state alone and re-issues this action.
pub open spec fn pending_action(s: SupervisorState) -> SupAction {
    match s {
        SupervisorState::Connecting => SupAction::AttemptConnect,
        SupervisorState::Connected => SupAction::ReadNextFrame,
        SupervisorState::Backoff(d) => SupAction::WaitRetry(d),
        SupervisorState::Terminated => SupAction::Stop,
    }
}

/// One decision of the supervisor: the next state and the action to take.
///
/// A requested shutdown terminates from every state — with a close frame
/// exactly when a connection is open. A failed connect backs off for the
/// connect-retry wait; a read error, a closed stream or an idle timeout
/// tears the connection down and backs off for the reconnect wait; an
/// elapsed backoff attempts the next connect. Nothing else terminates.
pub open spec fn sp_supervisor_step(s: SupervisorState, e: SupEvent) -> (
    SupervisorState,
    SupAction,
) {
    match (s, e) {
        (SupervisorState::Terminated, _) => (SupervisorState::Terminated, SupAction::Stop),
        (SupervisorState::Connected, SupEvent::ShutdownRequested) => (
            SupervisorState::Terminated,
            SupAction::SendCloseAndStop,
        ),
        (_, SupEvent::ShutdownRequested) => (SupervisorState::Terminated, SupAction::Stop),
        (SupervisorState::Connecting, SupEvent::ConnectSucceeded) => (
            SupervisorState::Connected,
            SupAction::ReadNextFrame,
        ),
        (SupervisorState::Connecting, SupEvent::ConnectFailed) => (
            SupervisorState::Backoff(CONNECT_RETRY_SECONDS),
            SupAction::WaitRetry(CONNECT_RETRY_SECONDS),
        ),
        (SupervisorState::Connected, SupEvent::FrameReceived) => (
            SupervisorState::Connected,
            SupAction::ReadNextFrame,
        ),
        (SupervisorState::Connected, SupEvent::ReadError) => (
            SupervisorState::Backoff(RECONNECT_DELAY_SECONDS),
            SupAction::WaitRetry(RECONNECT_DELAY_SECONDS),
        ),
        (SupervisorState::Connected, SupEvent::StreamClosed) => (
            SupervisorState::Backoff(RECONNECT_DELAY_SECONDS),
            SupAction::WaitRetry(RECONNECT_DELAY_SECONDS),
        ),
        (SupervisorState::Connected, SupEvent::IdleTimeout) => (
            SupervisorState::Backoff(RECONNECT_DELAY_SECONDS),
            SupAction::WaitRetry(RECONNECT_DELAY_SECONDS),
        ),
        (SupervisorState::Backoff(_), SupEvent::RetryDelayElapsed) => (
            SupervisorState::Connecting,
            SupAction::AttemptConnect,
        ),
        (st, _) => (st, pending_action(st)),
    }
}

/// Where the supervisor starts: about to make its first connect attempt.
pub fn supervisor_initial() -> (r: (SupervisorState, SupAction))
    ensures
        r.0 == SupervisorState::Connecting,
        r.1 == SupAction::AttemptConnect,
{
    (SupervisorState::Connecting, SupAction::AttemptConnect)
}

/// One decision of the supervisor, as `sp_supervisor_step` gives it.
pub fn supervisor_step(s: SupervisorState, e: SupEvent) -> (r: (SupervisorState, SupAction))
    ensures
        r == sp_supervisor_step(s, e),
{
    match (s, e) {
        (SupervisorState::Terminated, _) => (SupervisorState::Terminated, SupAction::Stop),
        (SupervisorState::Connected, SupEvent::ShutdownRequested) => (
            SupervisorState::Terminated,
            SupAction::SendCloseAndStop,
        ),
        (_, SupEvent::ShutdownRequested) => (SupervisorState::Terminated, SupAction::Stop),
        (SupervisorState::Connecting, SupEvent::ConnectSucceeded) => (
            SupervisorState::Connected,
            SupAction::ReadNextFrame,
        ),
        (SupervisorState::Connecting, SupEvent::ConnectFailed) => (
            SupervisorState::Backoff(CONNECT_RETRY_SECONDS),
            SupAction::WaitRetry(CONNECT_RETRY_SECONDS),
        ),
        (SupervisorState::Connected, SupEvent::FrameReceived) => (
            SupervisorState::Connected,
            SupAction::ReadNextFrame,
        ),
        (SupervisorState::Connected, SupEvent::ReadError) => (
            SupervisorState::Backoff(RECONNECT_DELAY_SECONDS),
            SupAction::WaitRetry(RECONNECT_DELAY_SECONDS),
        ),
        (SupervisorState::Connected, SupEvent::StreamClosed) => (
            SupervisorState::Backoff(RECONNECT_DELAY_SECONDS),
            SupAction::WaitRetry(RECONNECT_DELAY_SECONDS),
        ),
        (SupervisorState::Connected, SupEvent::IdleTimeout) => (
            SupervisorState::Backoff(RECONNECT_DELAY_SECONDS),
            SupAction::WaitRetry(RECONNECT_DELAY_SECONDS),
        ),
        (SupervisorState::Backoff(d), SupEvent::RetryDelayElapsed) => (
            SupervisorState::Connecting,
            SupAction::AttemptConnect,
        ),
        (st, _) => {
            let act = match st {
                SupervisorState::Connecting => SupAction::AttemptConnect,
                SupervisorState::Connected => SupAction::ReadNextFrame,
                SupervisorState::Backoff(d) => SupAction::WaitRetry(d),
                SupervisorState::Terminated => SupAction::Stop,
            };
            (st, act)
        },
    }
}

/// Only a requested shutdown reaches the terminal state: whatever else
/// happens, the supervisor keeps trying.
pub proof fn lemma_only_shutdown_terminates(s: SupervisorState, e: SupEvent)
    requires
        s != SupervisorState::Terminated,
        sp_supervisor_step(s, e).0 == SupervisorState::Terminated,
    ensures
        e == SupEvent::ShutdownRequested,
{
}

/// A requested shutdown terminates from every state — it is observed at
/// every suspension point, never deferred — and sends a close frame
/// exactly when a connection is open.
pub proof fn lemma_shutdown_always_terminates(s: SupervisorState)
    ensures
        sp_supervisor_step(s, SupEvent::ShutdownRequested).0 == SupervisorState::Terminated,
        sp_supervisor_step(s, SupEvent::ShutdownRequested).1 == (
        if s == SupervisorState::Connected {
            SupAction::SendCloseAndStop
        } else {
            SupAction::Stop
        }),
{
}

/// Every backoff the machine enters is one of the two fixed waits, both
/// within the documented retry band of five to seven seconds.
pub proof fn lemma_retry_delay_bounded(s: SupervisorState, e: SupEvent)
    requires
        !(s is Backoff),
        sp_supervisor_step(s, e).0 is Backoff,
    ensures
        ({
            let nd = sp_supervisor_step(s, e).0->Backoff_0;
            &&& nd == CONNECT_RETRY_SECONDS || nd == RECONNECT_DELAY_SECONDS
            &&& 5 <= nd <= 7
        }),
{
}

// --------------------------------------------------------------------------
// The upgrade request's host: what stands after the userinfo of the URI's
// authority.
// --------------------------------------------------------------------------

/// The host part of an authority: everything after the first `@`, or the
/// whole text when no userinfo is present.
pub open spec fn sp_host_of(s: Seq<u8>) -> Seq<u8> {
    let i = find_byte_from(s, 64, 0);
    if i < s.len() {
        s.subrange(i + 1, s.len() as int)
    } else {
        s
    }
}

/// The host part of an authority, as `sp_host_of` gives it.
pub fn host_of(authority: &Vec<u8>) -> (r: Vec<u8>)
    ensures
        r@ == sp_host_of(authority@),
{
    let mut i: usize = 0;
    while i < authority.len() && authority[i] != 64
        invariant
            i <= authority.len(),
            find_byte_from(authority@, 64, 0) == find_byte_from(authority@, 64, i as int),
        decreases authority.len() - i,
    {
        i += 1;
    }
    let start: usize = if i < authority.len() {
        i + 1
    } else {
        0
    };
    let mut out: Vec<u8> = Vec::new();
    let mut j: usize = start;
    while j < authority.len()
        invariant
            start <= j <= authority.len(),
            out@ =~= authority@.subrange(start as int, j as int),
        decreases authority.len() - j,
    {
        out.push(authority[j]);
        j += 1;
    }
    assert(out@ =~= authority@.subrange(start as int, authority@.len() as int));
    proof {
        if (i as int) < authority@.len() {
        } else {
            assert(out@ =~= authority@);
        }
    }
    out
}

} // verus!
