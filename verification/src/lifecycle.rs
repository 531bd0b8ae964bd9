//! Per-connection lifecycle and handshake sequencing.
//!
//! A connection moves through `Spawning -> Initializing -> Ready`, with
//! `Failed` as the error exit during setup and `Closed` once a ready
//! connection's process exits or the host shuts it down. `Failed` and
//! `Closed` are absorbing: nothing brings such a connection back.
//!
//! The handshake is the mandatory `initialize` then `tools/list` exchange,
//! driven strictly sequentially; either exchange failing, or the connection
//! dropping, aborts setup of this connection only.

use vstd::prelude::*;

verus! {

/// Lifecycle state of one connection.
#[derive(Clone, Copy, PartialEq, Eq, Structural, Debug)]
pub enum LifeState {
    /// The child process is being created.
    Spawning,
    /// The process is up; the handshake has not completed yet.
    Initializing,
    /// Handshake done; the connection's tools are visible to the registry.
    Ready,
    /// Setup failed; the connection is discarded and never becomes ready.
    Failed,
    /// The process exited or the host shut the connection down.
    Closed,
}

/// What happened to a connection.
#[derive(Clone, Copy, PartialEq, Eq, Structural, Debug)]
pub enum LifeEvent {
    /// The child process was created and its streams are wired up.
    SpawnOk,
    /// The child process could not be created.
    SpawnFailed,
    /// Both handshake exchanges succeeded.
    HandshakeOk,
    /// An exchange of the handshake failed or returned a malformed result.
    HandshakeFailed,
    /// The child process exited on its own.
    ProcessExit,
    /// The host tears the connection down.
    Shutdown,
}

/// The lifecycle transition table. A process loss or shutdown during setup
/// is a setup failure; once `Ready`, it closes the connection. `Failed` and
/// `Closed` absorb every event.
pub open spec fn life_step_spec(s: LifeState, e: LifeEvent) -> LifeState {
    match s {
        LifeState::Spawning => match e {
            LifeEvent::SpawnOk => LifeState::Initializing,
            _ => LifeState::Failed,
        },
        LifeState::Initializing => match e {
            LifeEvent::HandshakeOk => LifeState::Ready,
            _ => LifeState::Failed,
        },
        LifeState::Ready => match e {
            LifeEvent::ProcessExit | LifeEvent::Shutdown => LifeState::Closed,
            _ => LifeState::Ready,
        },
        LifeState::Failed => LifeState::Failed,
        LifeState::Closed => LifeState::Closed,
    }
}

/// Advance a connection's lifecycle by one event.
pub fn life_step(s: LifeState, e: LifeEvent) -> (t: LifeState)
    ensures
        t == life_step_spec(s, e),
{
    match s {
        LifeState::Spawning => match e {
            LifeEvent::SpawnOk => LifeState::Initializing,
            _ => LifeState::Failed,
        },
        LifeState::Initializing => match e {
            LifeEvent::HandshakeOk => LifeState::Ready,
            _ => LifeState::Failed,
        },
        LifeState::Ready => match e {
            LifeEvent::ProcessExit | LifeEvent::Shutdown => LifeState::Closed,
            _ => LifeState::Ready,
        },
        LifeState::Failed => LifeState::Failed,
        LifeState::Closed => LifeState::Closed,
    }
}

/// No transition leaves `Failed` or `Closed`, so in particular neither ever
/// becomes `Ready` again, under any sequence of events.
pub proof fn lemma_no_revival(s: LifeState, e: LifeEvent)
    ensures
        s is Failed ==> life_step_spec(s, e) is Failed,
        s is Closed ==> life_step_spec(s, e) is Closed,
        life_step_spec(s, e) is Ready ==> s is Ready || s is Initializing,
{
}

/// A connection becomes `Ready` only by completing the handshake.
pub proof fn lemma_ready_needs_handshake(s: LifeState, e: LifeEvent)
    ensures
        life_step_spec(s, e) is Ready && !(s is Ready) ==> s is Initializing
            && e is HandshakeOk,
{
}

/// Where the handshake of one connection stands.
#[derive(Clone, Copy, PartialEq, Eq, Structural, Debug)]
pub enum HsPhase {
    /// Nothing sent yet.
    Start,
    /// `initialize` is on the wire; waiting for its response.
    AwaitInit,
    /// `tools/list` is on the wire; waiting for its response.
    AwaitTools,
    /// Both exchanges succeeded; the tool list is final.
    Done,
    /// An exchange failed, a result was malformed, or the connection dropped.
    Aborted,
}

/// What the handshake has seen.
#[derive(Clone, Copy, PartialEq, Eq, Structural, Debug)]
pub enum HsEvent {
    /// The connection is up; begin the handshake.
    Begin,
    /// The `initialize` response arrived; true means a success result.
    InitResult(bool),
    /// The `tools/list` response arrived; true means a well-formed tool list.
    ToolsResult(bool),
    /// The connection dropped before the handshake finished.
    ConnectionLost,
}

/// What the driver must do next.
#[derive(Clone, Copy, PartialEq, Eq, Structural, Debug)]
pub enum HsAction {
    /// Send the `initialize` request.
    SendInitialize,
    /// Send the `tools/list` request.
    SendToolsList,
    /// Mark the connection ready and publish its tools.
    Publish,
    /// Tear this connection down; other connections are untouched.
    Abort,
    /// Nothing to do.
    Idle,
}

/// The handshake transition table: strictly `initialize` then `tools/list`,
/// each exactly once; any failure, out-of-phase event, or connection loss
/// aborts this connection's setup. `Done` and `Aborted` absorb every event.
pub open spec fn hs_step_spec(p: HsPhase, e: HsEvent) -> (HsPhase, HsAction) {
    match p {
        HsPhase::Start => match e {
            HsEvent::Begin => (HsPhase::AwaitInit, HsAction::SendInitialize),
            _ => (HsPhase::Aborted, HsAction::Abort),
        },
        HsPhase::AwaitInit => match e {
            HsEvent::InitResult(true) => (HsPhase::AwaitTools, HsAction::SendToolsList),
            _ => (HsPhase::Aborted, HsAction::Abort),
        },
        HsPhase::AwaitTools => match e {
            HsEvent::ToolsResult(true) => (HsPhase::Done, HsAction::Publish),
            _ => (HsPhase::Aborted, HsAction::Abort),
        },
        HsPhase::Done => (HsPhase::Done, HsAction::Idle),
        HsPhase::Aborted => (HsPhase::Aborted, HsAction::Idle),
    }
}

/// Advance a connection's handshake by one event.
pub fn hs_step(p: HsPhase, e: HsEvent) -> (r: (HsPhase, HsAction))
    ensures
        r == hs_step_spec(p, e),
{
    match p {
        HsPhase::Start => match e {
            HsEvent::Begin => (HsPhase::AwaitInit, HsAction::SendInitialize),
            _ => (HsPhase::Aborted, HsAction::Abort),
        },
        HsPhase::AwaitInit => match e {
            HsEvent::InitResult(true) => (HsPhase::AwaitTools, HsAction::SendToolsList),
            _ => (HsPhase::Aborted, HsAction::Abort),
        },
        HsPhase::AwaitTools => match e {
            HsEvent::ToolsResult(true) => (HsPhase::Done, HsAction::Publish),
            _ => (HsPhase::Aborted, HsAction::Abort),
        },
        HsPhase::Done => (HsPhase::Done, HsAction::Idle),
        HsPhase::Aborted => (HsPhase::Aborted, HsAction::Idle),
    }
}

/// Tools are published only on the step that completes the whole handshake:
/// a successful `tools/list` result while it was awaited.
pub proof fn lemma_publish_needs_both_exchanges(p: HsPhase, e: HsEvent)
    ensures
        hs_step_spec(p, e).1 is Publish <==> p is AwaitTools && e == HsEvent::ToolsResult(true),
        hs_step_spec(p, e).0 is Done && !(p is Done) ==> hs_step_spec(p, e).1 is Publish,
{
}

} // verus!
