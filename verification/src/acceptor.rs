//! The connection acceptor: the race between new connections and shutdown.
//!
//! The acceptor owns the listening socket. Its driver waits for whichever
//! comes first, a control message or a connection, reports it, and carries
//! out the [`AcceptorAction`] that comes back. No fault of a single
//! connection stops the acceptor; only a shutdown does, and a shutdown
//! touches nothing but the acceptor itself: the sessions that were handed
//! out before it run on.

use crate::peer::PeerAddr;
use vstd::prelude::*;

verus! {

/// A control message to the long-running tasks of the server.
#[derive(Clone, Copy, Debug, PartialEq, Eq)]
pub enum CoreAction {
    /// Stop taking new work.
    Shutdown,
}

/// What the acceptor is doing.
#[derive(Clone, Copy, Debug, PartialEq, Eq)]
pub enum AcceptorState {
    /// Waiting for a connection or a control message.
    Listening,
    /// Upgrading the connection of this client to TLS.
    Handshaking(PeerAddr),
    /// Shut down. No connection is accepted any more.
    Stopped,
}

/// What the driver of the acceptor reports to it.
#[derive(Clone, Copy, Debug, PartialEq, Eq)]
pub enum AcceptorEvent {
    /// A control message arrived.
    Control(CoreAction),
    /// A client connected from this address.
    Accepted(PeerAddr),
    /// Accepting a connection failed.
    AcceptFailed,
    /// The TLS state for the accepted connection could not be set up.
    TlsSetupFailed,
    /// The TLS handshake with the client failed.
    TlsAcceptFailed,
    /// The TLS handshake with the client succeeded.
    TlsEstablished,
}

/// What went wrong with one connection or one attempt to accept one.
#[derive(Clone, Copy, Debug, PartialEq, Eq)]
pub enum AcceptorFault {
    /// Accepting a connection failed.
    Accept,
    /// The TLS state could not be set up.
    TlsSetup,
    /// The TLS handshake failed.
    TlsAccept,
    /// The driver reported an event that the acceptor was not waiting for.
    OutOfTurn,
}

/// What the acceptor asks its driver to do next.
#[derive(Clone, Copy, Debug, PartialEq, Eq)]
pub enum AcceptorAction {
    /// Leave the accept loop. Sessions that are open stay as they are.
    Stop,
    /// Upgrade the accepted connection to TLS and report how that went.
    Handshake,
    /// Start a session for the client at this address on the encrypted
    /// stream, as a task of its own, and go back to waiting.
    Serve(PeerAddr),
    /// Log the fault, drop the connection that it belongs to, if there is
    /// one, and go back to waiting.
    Discard(AcceptorFault),
}

impl AcceptorEvent {
    /// Whether the event asks the acceptor to shut down.
    pub open spec fn is_shutdown(self) -> bool {
        self == AcceptorEvent::Control(CoreAction::Shutdown)
    }

    /// Whether the event reports that accepting or upgrading a connection
    /// failed.
    pub open spec fn is_failure(self) -> bool {
        self is AcceptFailed || self is TlsSetupFailed || self is TlsAcceptFailed
    }
}

/// The state of the acceptor after `event`.
///
/// A shutdown stops it, and once stopped it stays so. An accepted connection
/// takes a listening acceptor into the handshake with that client. Everything
/// else, the end of a handshake as well as any fault, leaves it listening.
pub open spec fn acceptor_next(state: AcceptorState, event: AcceptorEvent) -> AcceptorState {
    if state is Stopped || event.is_shutdown() {
        AcceptorState::Stopped
    } else if state is Listening && event is Accepted {
        AcceptorState::Handshaking(event->Accepted_0)
    } else {
        AcceptorState::Listening
    }
}

/// The fault that an event stands for in a state that is not stopped, if it
/// stands for one: the failure that it reports, or that it came out of turn.
pub open spec fn acceptor_fault(state: AcceptorState, event: AcceptorEvent) -> Option<
    AcceptorFault,
> {
    match (state, event) {
        (AcceptorState::Listening, AcceptorEvent::Accepted(_)) => None,
        (AcceptorState::Listening, AcceptorEvent::AcceptFailed) => Some(AcceptorFault::Accept),
        (AcceptorState::Handshaking(_), AcceptorEvent::TlsEstablished) => None,
        (AcceptorState::Handshaking(_), AcceptorEvent::TlsSetupFailed) => Some(
            AcceptorFault::TlsSetup,
        ),
        (AcceptorState::Handshaking(_), AcceptorEvent::TlsAcceptFailed) => Some(
            AcceptorFault::TlsAccept,
        ),
        _ => Some(AcceptorFault::OutOfTurn),
    }
}

/// The action that the acceptor asks for on `event`.
///
/// A stopped acceptor and a shutdown ask for `Stop`. A fault asks for
/// `Discard`. An accepted connection asks for the handshake, and a handshake
/// that succeeded for a session with the client that was accepted.
pub open spec fn acceptor_action(state: AcceptorState, event: AcceptorEvent) -> AcceptorAction {
    if state is Stopped || event.is_shutdown() {
        AcceptorAction::Stop
    } else {
        match acceptor_fault(state, event) {
            Some(fault) => AcceptorAction::Discard(fault),
            None => match state {
                AcceptorState::Handshaking(peer) => AcceptorAction::Serve(peer),
                _ => AcceptorAction::Handshake,
            },
        }
    }
}

impl AcceptorState {
    /// Takes one event and says what to do next.
    pub fn step(self, event: AcceptorEvent) -> (next: (AcceptorState, AcceptorAction))
        ensures
            next.0 == acceptor_next(self, event),
            next.1 == acceptor_action(self, event),
    {
        match (self, event) {
            (AcceptorState::Stopped, _) => (AcceptorState::Stopped, AcceptorAction::Stop),
            (_, AcceptorEvent::Control(CoreAction::Shutdown)) => (
                AcceptorState::Stopped,
                AcceptorAction::Stop,
            ),
            (AcceptorState::Listening, AcceptorEvent::Accepted(peer)) => (
                AcceptorState::Handshaking(peer),
                AcceptorAction::Handshake,
            ),
            (AcceptorState::Listening, AcceptorEvent::AcceptFailed) => (
                AcceptorState::Listening,
                AcceptorAction::Discard(AcceptorFault::Accept),
            ),
            (AcceptorState::Handshaking(peer), AcceptorEvent::TlsEstablished) => (
                AcceptorState::Listening,
                AcceptorAction::Serve(peer),
            ),
            (AcceptorState::Handshaking(_), AcceptorEvent::TlsSetupFailed) => (
                AcceptorState::Listening,
                AcceptorAction::Discard(AcceptorFault::TlsSetup),
            ),
            (AcceptorState::Handshaking(_), AcceptorEvent::TlsAcceptFailed) => (
                AcceptorState::Listening,
                AcceptorAction::Discard(AcceptorFault::TlsAccept),
            ),
            _ => (AcceptorState::Listening, AcceptorAction::Discard(AcceptorFault::OutOfTurn)),
        }
    }
}

/// The state of the acceptor after the events of a trace, taken in order.
pub open spec fn acceptor_run(state: AcceptorState, events: Seq<AcceptorEvent>) -> AcceptorState
    decreases events.len(),
{
    if events.len() == 0 {
        state
    } else {
        acceptor_run(acceptor_next(state, events[0]), events.skip(1))
    }
}

/// The actions that the acceptor answers the events of a trace with, one for
/// each event.
pub open spec fn acceptor_actions(state: AcceptorState, events: Seq<AcceptorEvent>) -> Seq<
    AcceptorAction,
>
    decreases events.len(),
{
    if events.len() == 0 {
        Seq::empty()
    } else {
        seq![acceptor_action(state, events[0])] + acceptor_actions(
            acceptor_next(state, events[0]),
            events.skip(1),
        )
    }
}

/// Nothing but a shutdown stops the acceptor: over any trace that holds no
/// shutdown, whatever fails in it and however often, an acceptor that was
/// running is still running at the end and has never been told to stop.
pub proof fn only_shutdown_stops(state: AcceptorState, events: Seq<AcceptorEvent>)
    requires
        !(state is Stopped),
        forall|i: int| 0 <= i < events.len() ==> !events[i].is_shutdown(),
    ensures
        !(acceptor_run(state, events) is Stopped),
        acceptor_actions(state, events).len() == events.len(),
        forall|i: int| 0 <= i < events.len() ==> !(acceptor_actions(state, events)[i] is Stop),
    decreases events.len(),
{
    if events.len() > 0 {
        let next = acceptor_next(state, events[0]);
        let rest = events.skip(1);
        assert(!events[0].is_shutdown());
        assert forall|i: int| 0 <= i < rest.len() implies !rest[i].is_shutdown() by {
            assert(rest[i] == events[i + 1]);
        }
        only_shutdown_stops(next, rest);
        let all = acceptor_actions(state, events);
        let tail = acceptor_actions(next, rest);
        assert(all == seq![acceptor_action(state, events[0])] + tail);
        assert forall|i: int| 0 <= i < events.len() implies !(all[i] is Stop) by {
            if i > 0 {
                assert(all[i] == tail[i - 1]);
            }
        }
    }
}

/// After a failure the acceptor accepts again: over any trace that holds no
/// shutdown and ends with a failed accept or a failed handshake, a running
/// acceptor ends up listening, takes the next client into a handshake, and
/// serves that client when the handshake succeeds.
pub proof fn accepts_again_after_failure(
    state: AcceptorState,
    events: Seq<AcceptorEvent>,
    peer: PeerAddr,
)
    requires
        !(state is Stopped),
        forall|i: int| 0 <= i < events.len() ==> !events[i].is_shutdown(),
        events.len() > 0,
        events.last().is_failure(),
    ensures
        acceptor_run(state, events) == AcceptorState::Listening,
        acceptor_actions(
            state,
            events + seq![AcceptorEvent::Accepted(peer), AcceptorEvent::TlsEstablished],
        ) == acceptor_actions(state, events) + seq![
            AcceptorAction::Handshake,
            AcceptorAction::Serve(peer),
        ],
    decreases events.len(),
{
    let more = seq![AcceptorEvent::Accepted(peer), AcceptorEvent::TlsEstablished];
    let next = acceptor_next(state, events[0]);
    let rest = events.skip(1);
    assert(!events[0].is_shutdown());
    assert((events + more).skip(1) =~= rest + more);
    assert(acceptor_run(state, events) == acceptor_run(next, rest));
    if rest.len() == 0 {
        assert(events.last() == events[0]);
        assert(next == AcceptorState::Listening);
        assert(acceptor_run(next, rest) == next);
        assert(rest + more =~= more);
        assert(more.skip(1) =~= seq![AcceptorEvent::TlsEstablished]);
        assert(more.skip(1).skip(1) =~= Seq::<AcceptorEvent>::empty());
        assert(acceptor_actions(next, more) =~= seq![
            AcceptorAction::Handshake,
            AcceptorAction::Serve(peer),
        ]) by {
            let second = acceptor_next(next, more[0]);
            assert(acceptor_actions(second, more.skip(1)) =~= seq![AcceptorAction::Serve(peer)])
                by {
                assert(acceptor_actions(
                    acceptor_next(second, more.skip(1)[0]),
                    more.skip(1).skip(1),
                ) =~= Seq::<AcceptorAction>::empty());
            }
        }
        assert(acceptor_actions(next, rest) =~= Seq::<AcceptorAction>::empty());
        assert(acceptor_actions(state, events + more) =~= acceptor_actions(state, events) + seq![
            AcceptorAction::Handshake,
            AcceptorAction::Serve(peer),
        ]);
    } else {
        assert forall|i: int| 0 <= i < rest.len() implies !rest[i].is_shutdown() by {
            assert(rest[i] == events[i + 1]);
        }
        assert(rest.last() == events.last());
        accepts_again_after_failure(next, rest, peer);
        assert(acceptor_actions(state, events + more) =~= acceptor_actions(state, events) + seq![
            AcceptorAction::Handshake,
            AcceptorAction::Serve(peer),
        ]);
    }
}

/// After a shutdown no connection is accepted: from the shutdown on, in
/// whatever state it arrives and whatever is reported afterwards, the
/// acceptor is stopped and asks for nothing but `Stop`, so it starts no
/// handshake and no session.
pub proof fn shutdown_ends_accepting(state: AcceptorState, rest: Seq<AcceptorEvent>)
    ensures
        ({
            let events = seq![AcceptorEvent::Control(CoreAction::Shutdown)] + rest;
            &&& acceptor_run(state, events) == AcceptorState::Stopped
            &&& acceptor_actions(state, events).len() == events.len()
            &&& forall|i: int|
                0 <= i < events.len() ==> acceptor_actions(state, events)[i]
                    == AcceptorAction::Stop
        }),
{
    let events = seq![AcceptorEvent::Control(CoreAction::Shutdown)] + rest;
    assert(events.skip(1) =~= rest);
    stopped_stays_stopped(rest);
    let all = acceptor_actions(state, events);
    let tail = acceptor_actions(AcceptorState::Stopped, rest);
    assert(all == seq![AcceptorAction::Stop] + tail);
    assert forall|i: int| 0 <= i < events.len() implies all[i] == AcceptorAction::Stop by {
        if i > 0 {
            assert(all[i] == tail[i - 1]);
        }
    }
}

/// A stopped acceptor stays stopped and asks for nothing but `Stop`.
pub proof fn stopped_stays_stopped(events: Seq<AcceptorEvent>)
    ensures
        acceptor_run(AcceptorState::Stopped, events) == AcceptorState::Stopped,
        acceptor_actions(AcceptorState::Stopped, events).len() == events.len(),
        forall|i: int|
            0 <= i < events.len() ==> acceptor_actions(AcceptorState::Stopped, events)[i]
                == AcceptorAction::Stop,
    decreases events.len(),
{
    if events.len() > 0 {
        stopped_stays_stopped(events.skip(1));
        let all = acceptor_actions(AcceptorState::Stopped, events);
        let tail = acceptor_actions(AcceptorState::Stopped, events.skip(1));
        assert(all == seq![AcceptorAction::Stop] + tail);
        assert forall|i: int| 0 <= i < events.len() implies all[i] == AcceptorAction::Stop by {
            if i > 0 {
                assert(all[i] == tail[i - 1]);
            }
        }
    }
}

/// A session is started for a client exactly when its handshake succeeds:
/// the acceptor asks for a session with a client if and only if it was in the
/// handshake with that very client and the event says that the handshake
/// succeeded.
pub proof fn serves_only_after_handshake(state: AcceptorState, event: AcceptorEvent, peer: PeerAddr)
    ensures
        acceptor_action(state, event) == AcceptorAction::Serve(peer) <==> state
            == AcceptorState::Handshaking(peer) && event is TlsEstablished,
{
}

} // verus!
