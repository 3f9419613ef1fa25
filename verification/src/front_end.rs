//! The front end as a whole: one acceptor and the sessions that it has
//! started, each driven by its own events in any interleaving.
//!
//! Acceptor and sessions share no state, and the proofs here say what that
//! buys: what happens to one connection, or to the acceptor, never shows in
//! another connection. A session that is open when the acceptor shuts down
//! goes on exactly as it would have.

use crate::acceptor::{
    acceptor_action, acceptor_next, acceptor_run, AcceptorAction, AcceptorEvent, AcceptorState,
};
use crate::session::{session_step, SessionEvent, SessionState};
use crate::session_trace::session_run;
use vstd::prelude::*;

verus! {

/// The acceptor and the sessions that it has started, oldest first.
pub struct FrontEnd<T> {
    pub acceptor: AcceptorState,
    pub sessions: Seq<SessionState<T>>,
}

/// One thing that happens at the front end.
pub enum FrontEndEvent<T> {
    /// An event of the acceptor.
    Acceptor(AcceptorEvent),
    /// An event of the session with this index.
    Session(int, SessionEvent<T>),
}

/// The front end after one event. An event of the acceptor moves the
/// acceptor, and where the acceptor asks for a session, a fresh one for that
/// client joins the others. An event of a session moves that session.
pub open spec fn front_end_step<T>(front: FrontEnd<T>, event: FrontEndEvent<T>) -> FrontEnd<T> {
    match event {
        FrontEndEvent::Acceptor(event) => FrontEnd {
            acceptor: acceptor_next(front.acceptor, event),
            sessions: match acceptor_action(front.acceptor, event) {
                AcceptorAction::Serve(peer) => front.sessions.push(SessionState::fresh(peer)),
                _ => front.sessions,
            },
        },
        FrontEndEvent::Session(index, event) => if 0 <= index < front.sessions.len() {
            FrontEnd {
                acceptor: front.acceptor,
                sessions: front.sessions.update(
                    index,
                    session_step(front.sessions[index], event).0,
                ),
            }
        } else {
            front
        },
    }
}

/// The front end after the events of a trace, taken in order.
pub open spec fn front_end_run<T>(front: FrontEnd<T>, events: Seq<FrontEndEvent<T>>) -> FrontEnd<T>
    decreases events.len(),
{
    if events.len() == 0 {
        front
    } else {
        front_end_run(front_end_step(front, events[0]), events.skip(1))
    }
}

/// The events of a trace that belong to the session with this index, in
/// order.
pub open spec fn events_of_session<T>(events: Seq<FrontEndEvent<T>>, index: int) -> Seq<
    SessionEvent<T>,
>
    decreases events.len(),
{
    if events.len() == 0 {
        Seq::empty()
    } else {
        match events[0] {
            FrontEndEvent::Session(at, event) if at == index => seq![event] + events_of_session(
                events.skip(1),
                index,
            ),
            _ => events_of_session(events.skip(1), index),
        }
    }
}

/// The events of a trace that belong to the acceptor, in order.
pub open spec fn events_of_acceptor<T>(events: Seq<FrontEndEvent<T>>) -> Seq<AcceptorEvent>
    decreases events.len(),
{
    if events.len() == 0 {
        Seq::empty()
    } else {
        match events[0] {
            FrontEndEvent::Acceptor(event) => seq![event] + events_of_acceptor(events.skip(1)),
            _ => events_of_acceptor(events.skip(1)),
        }
    }
}

/// A session depends on its own events alone: whatever else happens at the
/// front end in between, to the acceptor or to other sessions, a shutdown
/// included, an open session ends up where its own events take it. No
/// session is ever removed.
pub proof fn session_runs_on_its_own_events<T>(
    front: FrontEnd<T>,
    events: Seq<FrontEndEvent<T>>,
    index: int,
)
    requires
        0 <= index < front.sessions.len(),
    ensures
        front_end_run(front, events).sessions.len() >= front.sessions.len(),
        front_end_run(front, events).sessions[index] == session_run(
            front.sessions[index],
            events_of_session(events, index),
        ),
    decreases events.len(),
{
    if events.len() > 0 {
        let next = front_end_step(front, events[0]);
        session_runs_on_its_own_events(next, events.skip(1), index);
        match events[0] {
            FrontEndEvent::Session(at, event) if at == index => {
                let own = events_of_session(events, index);
                assert(own.skip(1) =~= events_of_session(events.skip(1), index));
            },
            _ => {},
        }
    }
}

/// The acceptor depends on its own events alone: nothing that a session
/// does or suffers shows in the acceptor.
pub proof fn acceptor_runs_on_its_own_events<T>(front: FrontEnd<T>, events: Seq<FrontEndEvent<T>>)
    ensures
        front_end_run(front, events).acceptor == acceptor_run(
            front.acceptor,
            events_of_acceptor(events),
        ),
    decreases events.len(),
{
    if events.len() > 0 {
        let next = front_end_step(front, events[0]);
        acceptor_runs_on_its_own_events(next, events.skip(1));
        match events[0] {
            FrontEndEvent::Acceptor(event) => {
                let own = events_of_acceptor(events);
                assert(own.skip(1) =~= events_of_acceptor(events.skip(1)));
            },
            _ => {},
        }
    }
}

/// Once the acceptor is stopped, no session is started any more, whatever is
/// reported, while the sessions that are open stay in the front end.
pub proof fn stopped_front_end_starts_no_session<T>(
    front: FrontEnd<T>,
    events: Seq<FrontEndEvent<T>>,
)
    requires
        front.acceptor is Stopped,
    ensures
        front_end_run(front, events).acceptor is Stopped,
        front_end_run(front, events).sessions.len() == front.sessions.len(),
    decreases events.len(),
{
    if events.len() > 0 {
        stopped_front_end_starts_no_session(front_end_step(front, events[0]), events.skip(1));
    }
}

} // verus!
