//! What holds of a session over any sequence of events.
//!
//! A trace is the sequence of events that a driver reports, in order. The
//! functions here say which actions a session answers a trace with, and the
//! proofs state what those actions can and cannot be.

use crate::session::{
    proceed, session_step, DispatchCall, ResponseOutcome, SessionAction, SessionEvent, SessionPhase,
    SessionState,
};
use ldap3_proto::proto::LdapMsg;
use vstd::prelude::*;

verus! {

/// The state of a session after the events of a trace, taken in order.
pub open spec fn session_run<T>(state: SessionState<T>, events: Seq<SessionEvent<T>>) -> SessionState<
    T,
>
    decreases events.len(),
{
    if events.len() == 0 {
        state
    } else {
        session_run(session_step(state, events[0]).0, events.skip(1))
    }
}

/// The actions that a session answers the events of a trace with, one for
/// each event.
pub open spec fn session_actions<T>(state: SessionState<T>, events: Seq<SessionEvent<T>>) -> Seq<
    SessionAction<T>,
>
    decreases events.len(),
{
    if events.len() == 0 {
        Seq::empty()
    } else {
        seq![session_step(state, events[0]).1] + session_actions(
            session_step(state, events[0]).0,
            events.skip(1),
        )
    }
}

/// The frames that the actions hand out for writing, in order.
pub open spec fn frames_sent<T>(actions: Seq<SessionAction<T>>) -> Seq<LdapMsg>
    decreases actions.len(),
{
    if actions.len() == 0 {
        Seq::empty()
    } else {
        match actions[0] {
            SessionAction::Send(frame) => seq![frame] + frames_sent(actions.skip(1)),
            _ => frames_sent(actions.skip(1)),
        }
    }
}

/// The frames of all the dispatcher's answers in a trace, in the order in
/// which the answers arrive.
pub open spec fn frames_answered<T>(events: Seq<SessionEvent<T>>) -> Seq<LdapMsg>
    decreases events.len(),
{
    if events.len() == 0 {
        Seq::empty()
    } else {
        match events[0] {
            SessionEvent::Outcome(answer) => ResponseOutcome::of_answer(answer).frames()
                + frames_answered(events.skip(1)),
            _ => frames_answered(events.skip(1)),
        }
    }
}

/// The frames that a state still holds for writing, in order.
pub open spec fn frames_queued<T>(state: SessionState<T>) -> Seq<LdapMsg> {
    match state.phase {
        SessionPhase::Sending { queue, .. } => queue,
        _ => Seq::empty(),
    }
}

/// A trace of `n` successful writes.
pub open spec fn writes_done<T>(n: nat) -> Seq<SessionEvent<T>> {
    Seq::new(n, |i: int| SessionEvent::SendDone(true))
}

/// The frames, each as the action that hands it out for writing.
pub open spec fn as_sends<T>(frames: Seq<LdapMsg>) -> Seq<SessionAction<T>> {
    Seq::new(frames.len(), |i: int| SessionAction::Send(frames[i]))
}

/// A trace has one action for each of its events.
pub proof fn trace_has_one_action_per_event<T>(
    state: SessionState<T>,
    events: Seq<SessionEvent<T>>,
)
    ensures
        session_actions(state, events).len() == events.len(),
    decreases events.len(),
{
    if events.len() > 0 {
        trace_has_one_action_per_event(session_step(state, events[0]).0, events.skip(1));
    }
}

/// A closed session stays closed: whatever is reported to it, it keeps its
/// identity, it answers with nothing but `Close`, and it hands out no frame.
pub proof fn closed_session_stays_closed<T>(state: SessionState<T>, events: Seq<SessionEvent<T>>)
    requires
        state.phase is Closed,
    ensures
        session_run(state, events) == state,
        session_actions(state, events).len() == events.len(),
        forall|i: int| 0 <= i < events.len() ==> session_actions(state, events)[i] is Close,
        frames_sent(session_actions(state, events)) == Seq::<LdapMsg>::empty(),
    decreases events.len(),
{
    if events.len() > 0 {
        let next = session_step(state, events[0]);
        assert(next.0 == state);
        closed_session_stays_closed(state, events.skip(1));
        let tail = session_actions(state, events.skip(1));
        let all = session_actions(state, events);
        assert(all == seq![next.1] + tail);
        assert(all.skip(1) =~= tail);
        assert forall|i: int| 0 <= i < events.len() implies all[i] is Close by {
            if i > 0 {
                assert(all[i] == tail[i - 1]);
            }
        }
    }
}

/// After an outcome that ends the session, nothing more is read and nothing
/// is handed to the dispatcher: the one frame of the outcome, if it has one,
/// goes out first, and every other action is `Close`. The session is closed
/// as soon as that frame is dealt with.
pub proof fn closing_outcome_ends_session<T>(
    state: SessionState<T>,
    answer: Option<ResponseOutcome<T>>,
    rest: Seq<SessionEvent<T>>,
)
    requires
        state.phase is AwaitingOutcome,
        ResponseOutcome::of_answer(answer).closes() is Some,
    ensures
        ({
            let outcome = ResponseOutcome::of_answer(answer);
            let actions = session_actions(state, seq![SessionEvent::Outcome(answer)] + rest);
            &&& actions.len() == rest.len() + 1
            &&& outcome.frames().len() <= 1
            &&& outcome.frames().len() == 0 ==> actions[0] == SessionAction::<T>::Close(
                outcome.closes().unwrap(),
            )
            &&& outcome.frames().len() == 1 ==> actions[0] == SessionAction::<T>::Send(
                outcome.frames()[0],
            )
            &&& forall|i: int| 1 <= i < actions.len() ==> actions[i] is Close
            &&& outcome.frames().len() == 0 || rest.len() > 0 ==> session_run(
                state,
                seq![SessionEvent::Outcome(answer)] + rest,
            ).phase is Closed
        }),
{
    let outcome = ResponseOutcome::of_answer(answer);
    let events = seq![SessionEvent::Outcome(answer)] + rest;
    let first = session_step(state, events[0]);
    assert(events.skip(1) =~= rest);
    let actions = session_actions(state, events);
    let tail = session_actions(first.0, rest);
    assert(actions == seq![first.1] + tail);
    trace_has_one_action_per_event(first.0, rest);
    if outcome.frames().len() == 0 {
        closed_session_stays_closed(first.0, rest);
        assert forall|i: int| 1 <= i < actions.len() implies actions[i] is Close by {
            assert(actions[i] == tail[i - 1]);
        }
    } else {
        assert(outcome.frames().skip(1) =~= Seq::<LdapMsg>::empty());
        if rest.len() > 0 {
            let second = session_step(first.0, rest[0]);
            assert(second.0.phase is Closed);
            assert(second.1 is Close);
            closed_session_stays_closed(second.0, rest.skip(1));
            let tail2 = session_actions(second.0, rest.skip(1));
            assert(tail == seq![second.1] + tail2);
            assert forall|i: int| 1 <= i < actions.len() implies actions[i] is Close by {
                assert(actions[i] == tail[i - 1]);
                if i > 1 {
                    assert(tail[i - 1] == tail2[i - 2]);
                }
            }
            assert(session_run(state, events) == session_run(first.0, rest));
            assert(session_run(first.0, rest) == session_run(second.0, rest.skip(1)));
        }
    }
}

/// When the stream ends or its bytes do not decode, the session ends without
/// a frame: in whatever state the event arrives, every action from it on is
/// `Close`.
pub proof fn stream_end_sends_nothing<T>(
    state: SessionState<T>,
    event: SessionEvent<T>,
    rest: Seq<SessionEvent<T>>,
)
    requires
        event is StreamEnded || event is DecodeFailed,
    ensures
        ({
            let events = seq![event] + rest;
            &&& session_run(state, events).phase is Closed
            &&& session_actions(state, events).len() == events.len()
            &&& forall|i: int| 0 <= i < events.len() ==> session_actions(state, events)[i] is Close
            &&& frames_sent(session_actions(state, events)) == Seq::<LdapMsg>::empty()
        }),
{
    let events = seq![event] + rest;
    let first = session_step(state, events[0]);
    assert(first.0.phase is Closed);
    assert(first.1 is Close);
    assert(events.skip(1) =~= rest);
    closed_session_stays_closed(first.0, rest);
    let tail = session_actions(first.0, rest);
    let actions = session_actions(state, events);
    assert(actions == seq![first.1] + tail);
    assert(actions.skip(1) =~= tail);
    assert forall|i: int| 0 <= i < events.len() implies actions[i] is Close by {
        if i > 0 {
            assert(actions[i] == tail[i - 1]);
        }
    }
}

/// Only a bind changes the identity of a session: where a step leaves the
/// session with another identity, the event was an outcome that carries a
/// token, awaited by the session, and the new identity is that token.
pub proof fn identity_changes_only_by_bind<T>(state: SessionState<T>, event: SessionEvent<T>)
    ensures
        session_step(state, event).0.identity != state.identity ==> {
            &&& state.phase is AwaitingOutcome
            &&& event matches SessionEvent::Outcome(Some(outcome))
            &&& outcome.token() is Some
            &&& session_step(state, event).0.identity == outcome.token()
        },
{
}

/// A bind replaces the identity before anything is sent: in the very step
/// that takes the outcome, the session's identity becomes the outcome's
/// token, whatever it was, and the first frame goes out.
pub proof fn bind_replaces_identity<T>(state: SessionState<T>, outcome: ResponseOutcome<T>, token: T)
    requires
        state.phase is AwaitingOutcome,
        outcome.token() == Some(token),
    ensures
        session_step(state, SessionEvent::Outcome(Some(outcome))).0.identity == Some(token),
        outcome.frames().len() > 0 ==> session_step(state, SessionEvent::Outcome(Some(outcome))).1
            == SessionAction::<T>::Send(outcome.frames()[0]),
        outcome.frames().len() == 0 ==> session_step(state, SessionEvent::Outcome(Some(outcome))).1
            == SessionAction::<T>::ReadRequest,
{
}

/// Writing out a queue: a session that is writing a frame, with `queue` to
/// follow, answers that many and one more successful writes by handing out
/// the queued frames in order and then settling, that is closing or turning
/// to the next request. Its identity is the same afterwards.
pub proof fn queue_drains_in_order<T>(state: SessionState<T>)
    requires
        state.phase is Sending,
    ensures
        ({
            let queue = state.phase->queue;
            let closing = state.phase->closing;
            let events = writes_done::<T>(queue.len() + 1);
            let settled = proceed::<T>(Seq::empty(), closing);
            &&& session_actions(state, events) == as_sends::<T>(queue) + seq![settled.1]
            &&& session_run(state, events) == state.at(settled.0)
        }),
    decreases state.phase->queue.len(),
{
    let queue = state.phase->queue;
    let closing = state.phase->closing;
    let events = writes_done::<T>(queue.len() + 1);
    let settled = proceed::<T>(Seq::empty(), closing);
    let first = session_step(state, events[0]);
    let rest = events.skip(1);
    assert(session_actions(state, events) == seq![first.1] + session_actions(first.0, rest));
    assert(session_run(state, events) == session_run(first.0, rest));
    if queue.len() == 0 {
        assert(queue =~= Seq::empty());
        assert(rest =~= Seq::empty());
        assert(first.1 == settled.1);
        assert(first.0 == state.at(settled.0));
        assert(session_run(first.0, rest) == first.0);
        assert(session_actions(first.0, rest) =~= Seq::empty());
        assert(seq![first.1] + session_actions(first.0, rest) =~= as_sends::<T>(queue)
            + seq![settled.1]);
    } else {
        assert(rest =~= writes_done::<T>(queue.skip(1).len() + 1));
        assert(first.0.phase == (SessionPhase::Sending { queue: queue.skip(1), closing }));
        queue_drains_in_order(first.0);
        assert(first.0.at(settled.0) == state.at(settled.0));
        let tail = as_sends::<T>(queue.skip(1)) + seq![settled.1];
        assert(session_actions(first.0, rest) == tail);
        assert(first.1 == SessionAction::<T>::Send(queue[0]));
        assert(seq![first.1] + tail =~= as_sends::<T>(queue) + seq![settled.1]) by {
            assert forall|i: int| 0 <= i < queue.len() + 1 implies (seq![first.1] + tail)[i] == (
            as_sends::<T>(queue) + seq![settled.1])[i] by {
                if i > 0 {
                    assert((seq![first.1] + tail)[i] == tail[i - 1]);
                }
            }
        }
    }
}

/// One exchange, start to end: a waiting session that is given a request,
/// then the dispatcher's answer, then a successful write for each frame of
/// the answer, hands the request to the dispatcher with its identity, hands
/// out every frame of the answer in order, and then settles. Afterwards its
/// identity is the one that the answer leaves it with.
pub proof fn exchange_runs_in_order<T>(
    state: SessionState<T>,
    request: LdapMsg,
    answer: Option<ResponseOutcome<T>>,
)
    requires
        state.phase is AwaitingRequest,
    ensures
        ({
            let outcome = ResponseOutcome::of_answer(answer);
            let events = seq![SessionEvent::Request(request), SessionEvent::Outcome(answer)]
                + writes_done::<T>(outcome.frames().len());
            let settled = proceed::<T>(Seq::empty(), outcome.closes());
            &&& session_actions(state, events) == seq![
                SessionAction::Dispatch(
                    DispatchCall {
                        uat: state.identity,
                        client_address: state.peer,
                        protomsg: request,
                    },
                ),
            ] + as_sends::<T>(outcome.frames()) + seq![settled.1]
            &&& session_run(state, events) == state.bound_at(
                outcome.identity_after(state.identity),
                settled.0,
            )
        }),
{
    let outcome = ResponseOutcome::of_answer(answer);
    let frames = outcome.frames();
    let writes = writes_done::<T>(frames.len());
    let events = seq![SessionEvent::Request(request), SessionEvent::Outcome(answer)] + writes;
    let settled = proceed::<T>(Seq::empty(), outcome.closes());
    let first = session_step(state, events[0]);
    let after_request = events.skip(1);
    assert(after_request =~= seq![SessionEvent::Outcome(answer)] + writes);
    let second = session_step(first.0, after_request[0]);
    let after_answer = after_request.skip(1);
    assert(after_answer =~= writes);
    let tail = session_actions(second.0, writes);
    assert(session_actions(state, events) == seq![first.1] + session_actions(
        first.0,
        after_request,
    ));
    assert(session_actions(first.0, after_request) == seq![second.1] + tail);
    assert(session_run(state, events) == session_run(first.0, after_request));
    assert(session_run(first.0, after_request) == session_run(second.0, writes));
    let expected = seq![first.1] + as_sends::<T>(frames) + seq![settled.1];
    let given = seq![first.1] + (seq![second.1] + tail);
    if frames.len() == 0 {
        assert(frames =~= Seq::empty());
        assert(writes =~= Seq::empty());
        assert(tail =~= Seq::empty());
        assert(second.1 == settled.1);
        assert(session_run(second.0, writes) == second.0);
        assert(given =~= expected);
    } else {
        assert(writes =~= writes_done::<T>(frames.skip(1).len() + 1));
        assert(second.0.phase == (SessionPhase::Sending {
            queue: frames.skip(1),
            closing: outcome.closes(),
        }));
        queue_drains_in_order(second.0);
        assert(tail == as_sends::<T>(frames.skip(1)) + seq![settled.1]);
        assert(second.1 == SessionAction::<T>::Send(frames[0]));
        assert forall|i: int| 0 <= i < frames.len() + 2 implies given[i] == expected[i] by {
            if i > 1 {
                assert(given[i] == tail[i - 2]);
            }
        }
        assert(given =~= expected);
    }
}

/// After a bind, the next request goes to the dispatcher with the new token:
/// a session that takes an outcome carrying `token`, writes its frames, and
/// is then given a request, hands that request out with `token` as identity,
/// whatever identity it had before.
pub proof fn next_dispatch_carries_bound_token<T>(
    state: SessionState<T>,
    outcome: ResponseOutcome<T>,
    token: T,
    request: LdapMsg,
)
    requires
        state.phase is AwaitingOutcome,
        outcome.token() == Some(token),
    ensures
        ({
            let events = seq![SessionEvent::Outcome(Some(outcome))] + writes_done::<T>(
                outcome.frames().len(),
            ) + seq![SessionEvent::Request(request)];
            session_actions(state, events).last() == SessionAction::Dispatch(
                DispatchCall { uat: Some(token), client_address: state.peer, protomsg: request },
            )
        }),
{
    let frames = outcome.frames();
    let writes = writes_done::<T>(frames.len());
    let ask = seq![SessionEvent::<T>::Request(request)];
    let events = seq![SessionEvent::Outcome(Some(outcome))] + writes + ask;
    let first = session_step(state, events[0]);
    assert(events.skip(1) =~= writes + ask);
    let bound = state.bound_at(Some(token), SessionPhase::AwaitingRequest);
    let call = SessionAction::Dispatch(
        DispatchCall { uat: Some(token), client_address: state.peer, protomsg: request },
    );
    assert(session_actions(bound, ask) =~= seq![call]) by {
        assert(ask.skip(1) =~= Seq::empty());
        assert(session_actions(session_step(bound, ask[0]).0, ask.skip(1)) =~= Seq::empty());
    }
    if frames.len() == 0 {
        assert(writes + ask =~= ask);
        assert(first.0 == bound);
    } else {
        assert(writes =~= writes_done::<T>(frames.skip(1).len() + 1));
        queue_drains_in_order(first.0);
        assert(session_run(first.0, writes) == bound);
        traces_compose(first.0, writes, ask);
    }
}

/// Running a trace in two parts: the actions of `first + second` are those of
/// `first`, followed by those of `second` from the state that `first` leads
/// to.
pub proof fn traces_compose<T>(
    state: SessionState<T>,
    first: Seq<SessionEvent<T>>,
    second: Seq<SessionEvent<T>>,
)
    ensures
        session_run(state, first + second) == session_run(session_run(state, first), second),
        session_actions(state, first + second) == session_actions(state, first) + session_actions(
            session_run(state, first),
            second,
        ),
    decreases first.len(),
{
    if first.len() == 0 {
        assert(first + second =~= second);
        assert(session_actions(state, first) + session_actions(state, second)
            =~= session_actions(state, second));
    } else {
        let next = session_step(state, first[0]);
        assert((first + second).skip(1) =~= first.skip(1) + second);
        traces_compose(next.0, first.skip(1), second);
        assert(session_actions(state, first + second) =~= session_actions(state, first)
            + session_actions(session_run(state, first), second));
    }
}

/// Frames go out in the order of the answers, none twice and none out of
/// turn: over any trace, the frames handed out for writing are a prefix of
/// the frames that the session still held, followed by the frames of the
/// dispatcher's answers in the order in which the answers arrived.
pub proof fn frames_go_out_in_order<T>(state: SessionState<T>, events: Seq<SessionEvent<T>>)
    ensures
        frames_sent(session_actions(state, events)).is_prefix_of(
            frames_queued(state) + frames_answered(events),
        ),
    decreases events.len(),
{
    let sent = frames_sent(session_actions(state, events));
    let owed = frames_queued(state) + frames_answered(events);
    if events.len() == 0 {
        assert(sent =~= Seq::empty());
    } else {
        let next = session_step(state, events[0]);
        let rest = events.skip(1);
        let tail = session_actions(next.0, rest);
        let all = session_actions(state, events);
        assert(all == seq![next.1] + tail);
        assert(all.skip(1) =~= tail);
        frames_go_out_in_order(next.0, rest);
        let sent_rest = frames_sent(tail);
        let owed_rest = frames_queued(next.0) + frames_answered(rest);
        if next.0.phase is Closed {
            closed_session_stays_closed(next.0, rest);
            assert(sent =~= Seq::empty());
        } else {
            match next.1 {
                SessionAction::Send(frame) => {
                    assert(sent == seq![frame] + sent_rest);
                    assert(owed =~= seq![frame] + owed_rest);
                },
                _ => {
                    assert(sent == sent_rest);
                    assert(owed =~= owed_rest);
                },
            }
        }
    }
}

/// One request at a time: a request is handed to the dispatcher only by a
/// session that was waiting for one, and the next request is asked for only
/// when no frame of the answer before it is left to write.
pub proof fn requests_do_not_overlap<T>(state: SessionState<T>, event: SessionEvent<T>)
    ensures
        session_step(state, event).1 is Dispatch ==> state.phase is AwaitingRequest,
        session_step(state, event).1 is ReadRequest ==> frames_queued(state).len() == 0
            && session_step(state, event).0.phase is AwaitingRequest && (state.phase is Sending
            || state.phase is AwaitingOutcome),
{
}

} // verus!
