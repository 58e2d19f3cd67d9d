//! The viewer session as a state machine: Connecting, Active, Closing,
//! Closed. The caller runs the two racing receive loops and performs the
//! actions; the machine decides every transition, so that each path a
//! session can take ends in the terminal Closed state with exactly one
//! unregistration.

use vstd::prelude::*;

verus! {

/// Where one viewer session stands.
#[derive(Clone, Copy, PartialEq, Eq, Structural, Debug)]
pub enum SessionState {
    Connecting,
    Active,
    Closing,
    Closed,
}

/// What can happen to a session: the handshake completes; the hub hands
/// it a message; forwarding a message outward fails; the hub's channel
/// is lost (closed, or this viewer lagged past capacity); the viewer
/// sends a close frame, some other frame, or its transport ends; the
/// racing loop acknowledges its cancellation.
pub enum SessionEvent {
    HandshakeDone,
    HubMessage(Vec<u8>),
    ForwardFailed,
    HubLost,
    ViewerClose,
    ViewerFrame,
    ViewerGone,
    PeerCancelled,
}

/// What the caller must do after a transition: register the session,
/// forward a message to the viewer, cancel the session's other loop,
/// unregister the session, or nothing.
pub enum SessionAction {
    Register,
    Forward(Vec<u8>),
    CancelPeer,
    Unregister,
    Ignore,
}

/// The whole transition table. A session becomes Active when its
/// handshake completes; while Active it forwards hub messages and
/// ignores ordinary inbound frames; any failure to forward, loss of the
/// hub channel, close frame or transport loss moves it to Closing and
/// cancels the racing loop; the cancellation's acknowledgement moves it
/// to Closed and unregisters it. Closed is terminal. Events that do not
/// belong to a state change nothing.
pub open spec fn spec_session_step(s: SessionState, e: SessionEvent) -> (SessionState,
    SessionAction) {
    match (s, e) {
        (SessionState::Connecting, SessionEvent::HandshakeDone) => (
            SessionState::Active,
            SessionAction::Register,
        ),
        (SessionState::Active, SessionEvent::HubMessage(m)) => (
            SessionState::Active,
            SessionAction::Forward(m),
        ),
        (SessionState::Active, SessionEvent::ForwardFailed) => (
            SessionState::Closing,
            SessionAction::CancelPeer,
        ),
        (SessionState::Active, SessionEvent::HubLost) => (
            SessionState::Closing,
            SessionAction::CancelPeer,
        ),
        (SessionState::Active, SessionEvent::ViewerClose) => (
            SessionState::Closing,
            SessionAction::CancelPeer,
        ),
        (SessionState::Active, SessionEvent::ViewerGone) => (
            SessionState::Closing,
            SessionAction::CancelPeer,
        ),
        (SessionState::Active, SessionEvent::ViewerFrame) => (
            SessionState::Active,
            SessionAction::Ignore,
        ),
        (SessionState::Closing, SessionEvent::PeerCancelled) => (
            SessionState::Closed,
            SessionAction::Unregister,
        ),
        (state, _) => (state, SessionAction::Ignore),
    }
}

/// Take one step of the session state machine.
pub fn session_step(s: SessionState, e: SessionEvent) -> (r: (SessionState, SessionAction))
    ensures
        r == spec_session_step(s, e),
{
    match (s, e) {
        (SessionState::Connecting, SessionEvent::HandshakeDone) => (
            SessionState::Active,
            SessionAction::Register,
        ),
        (SessionState::Active, SessionEvent::HubMessage(m)) => (
            SessionState::Active,
            SessionAction::Forward(m),
        ),
        (SessionState::Active, SessionEvent::ForwardFailed) => (
            SessionState::Closing,
            SessionAction::CancelPeer,
        ),
        (SessionState::Active, SessionEvent::HubLost) => (
            SessionState::Closing,
            SessionAction::CancelPeer,
        ),
        (SessionState::Active, SessionEvent::ViewerClose) => (
            SessionState::Closing,
            SessionAction::CancelPeer,
        ),
        (SessionState::Active, SessionEvent::ViewerGone) => (
            SessionState::Closing,
            SessionAction::CancelPeer,
        ),
        (SessionState::Active, SessionEvent::ViewerFrame) => (
            SessionState::Active,
            SessionAction::Ignore,
        ),
        (SessionState::Closing, SessionEvent::PeerCancelled) => (
            SessionState::Closed,
            SessionAction::Unregister,
        ),
        (state, _) => (state, SessionAction::Ignore),
    }
}

/// Losing a viewer's transport while it is active drives the session to
/// Closed in two steps — the loss cancels the racing loop, and the
/// cancellation's acknowledgement unregisters the session — and by the
/// terminality of Closed it stays there. Each session is its own value,
/// so one session's loss leaves every other session's state untouched.
pub proof fn lemma_transport_loss_closes()
    ensures
        spec_session_step(SessionState::Active, SessionEvent::ViewerGone) == (
            SessionState::Closing,
            SessionAction::CancelPeer,
        ),
        spec_session_step(SessionState::Closing, SessionEvent::PeerCancelled) == (
            SessionState::Closed,
            SessionAction::Unregister,
        ),
{
}

/// Closed is final: no event moves a closed session anywhere or makes
/// it act, so no message is delivered to it and no identifier is reused.
pub proof fn lemma_closed_terminal(e: SessionEvent)
    ensures
        spec_session_step(SessionState::Closed, e).0 == SessionState::Closed,
        spec_session_step(SessionState::Closed, e).1 == SessionAction::Ignore,
{
}

/// A session unregisters itself only on the one transition out of
/// Closing, so a run can unregister at most once: after that step the
/// session is Closed, and Closed never acts again.
pub proof fn lemma_unregister_only_from_closing(s: SessionState, e: SessionEvent)
    ensures
        spec_session_step(s, e).1 == SessionAction::Unregister ==> s == SessionState::Closing
            && spec_session_step(s, e).0 == SessionState::Closed,
{
}

/// A whole run of the machine: the state after every event of `events`
/// has been taken in order from `s`, and the actions the run demanded.
pub open spec fn spec_session_run(s: SessionState, events: Seq<SessionEvent>) -> (SessionState,
    Seq<SessionAction>)
    decreases events.len(),
{
    if events.len() == 0 {
        (s, Seq::empty())
    } else {
        let prev = spec_session_run(s, events.drop_last());
        let step = spec_session_step(prev.0, events.last());
        (step.0, prev.1.push(step.1))
    }
}

/// How many of a run's actions unregister the session.
pub open spec fn spec_count_unregisters(actions: Seq<SessionAction>) -> nat
    decreases actions.len(),
{
    if actions.len() == 0 {
        0
    } else {
        spec_count_unregisters(actions.drop_last()) + if actions.last()
            == SessionAction::Unregister {
            1nat
        } else {
            0nat
        }
    }
}

/// Over any sequence of events whatever, a session unregisters itself
/// at most once, a session that has unregistered is Closed, and a run
/// from Closed never unregisters at all. So the registry entry of a
/// closed session is removed once and never acted on again.
pub proof fn lemma_at_most_one_unregister(s: SessionState, events: Seq<SessionEvent>)
    ensures
        spec_count_unregisters(spec_session_run(s, events).1) <= 1,
        spec_count_unregisters(spec_session_run(s, events).1) == 1 ==> spec_session_run(
            s,
            events,
        ).0 == SessionState::Closed,
        s == SessionState::Closed ==> spec_session_run(s, events).0 == SessionState::Closed
            && spec_count_unregisters(spec_session_run(s, events).1) == 0,
    decreases events.len(),
{
    if events.len() == 0 {
    } else {
        lemma_at_most_one_unregister(s, events.drop_last());
        let prev = spec_session_run(s, events.drop_last());
        let step = spec_session_step(prev.0, events.last());
        assert(spec_session_run(s, events).1.drop_last() =~= prev.1);
        if step.1 == SessionAction::Unregister {
            lemma_unregister_only_from_closing(prev.0, events.last());
        }
    }
}

} // verus!
