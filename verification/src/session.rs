//! Per-connection session: the authentication state of one client and the
//! read / dispatch / write cycle that serves it.
//!
//! The cycle is a state machine. The driver of a connection feeds it one
//! [`SessionEvent`] at a time and carries out the [`SessionAction`] that comes
//! back: read the next request, hand a request to the dispatcher, write one
//! frame, or close the connection.

use crate::peer::PeerAddr;
use ldap3_proto::proto::LdapMsg;
use vstd::prelude::*;

verus! {

/// Authentication state of one connection.
#[derive(Debug)]
pub struct LdapSession<T> {
    /// The bound identity, if a bind has succeeded on this connection.
    pub uat: Option<T>,
}

impl<T> LdapSession<T> {
    /// A session starts unauthenticated.
    pub fn new() -> (session: Self)
        ensures
            session.uat is None,
    {
        LdapSession { uat: None }
    }
}

/// Why a session came to its end.
#[derive(Clone, Copy, Debug, PartialEq, Eq)]
pub enum CloseReason {
    /// The stream came to its end: the client went away.
    StreamEnded,
    /// The client sent bytes that do not decode.
    DecodeFailed,
    /// The client asked to unbind.
    Unbind,
    /// The dispatcher asked for a disconnect after a last frame.
    Disconnect,
    /// A frame could not be written.
    WriteFailed,
    /// The dispatcher produced no outcome. This is a fault of the server, and
    /// the driver is expected to log it as such.
    InternalError,
    /// The driver reported an event that the session was not waiting for.
    OutOfTurn,
}

/// What the dispatcher decided for one request.
#[derive(Debug, PartialEq)]
pub enum ResponseOutcome<T> {
    /// End the session without sending anything.
    Terminate,
    /// Send one frame, then end the session.
    TerminateAfterSending(LdapMsg),
    /// Bind the session to the token, then send one frame.
    Bind(T, LdapMsg),
    /// Send one frame.
    Send(LdapMsg),
    /// Send the frames in order.
    SendMany(Vec<LdapMsg>),
    /// Bind the session to the token, then send the frames in order.
    BindSendMany(T, Vec<LdapMsg>),
    /// No definite outcome was reached.
    InternalError,
}

impl<T> ResponseOutcome<T> {
    /// The frames that the outcome asks to send, in order.
    pub open spec fn frames(self) -> Seq<LdapMsg> {
        match self {
            ResponseOutcome::Terminate => Seq::empty(),
            ResponseOutcome::TerminateAfterSending(msg) => seq![msg],
            ResponseOutcome::Bind(_, msg) => seq![msg],
            ResponseOutcome::Send(msg) => seq![msg],
            ResponseOutcome::SendMany(msgs) => msgs@,
            ResponseOutcome::BindSendMany(_, msgs) => msgs@,
            ResponseOutcome::InternalError => Seq::empty(),
        }
    }

    /// The token that the outcome binds the session to, if it is a bind.
    pub open spec fn token(self) -> Option<T> {
        match self {
            ResponseOutcome::Bind(token, _) => Some(token),
            ResponseOutcome::BindSendMany(token, _) => Some(token),
            _ => None,
        }
    }

    /// The identity of the session once the outcome is applied to a session
    /// whose identity was `before`: a token that the outcome carries replaces
    /// it, and nothing else touches it.
    pub open spec fn identity_after(self, before: Option<T>) -> Option<T> {
        match self.token() {
            Some(token) => Some(token),
            None => before,
        }
    }

    /// Whether the outcome ends the session once its frames are sent, and why.
    pub open spec fn closes(self) -> Option<CloseReason> {
        match self {
            ResponseOutcome::Terminate => Some(CloseReason::Unbind),
            ResponseOutcome::TerminateAfterSending(_) => Some(CloseReason::Disconnect),
            ResponseOutcome::InternalError => Some(CloseReason::InternalError),
            _ => None,
        }
    }

    /// What a dispatcher's answer means: no answer is an internal error.
    pub open spec fn of_answer(answer: Option<Self>) -> Self {
        match answer {
            Some(outcome) => outcome,
            None => ResponseOutcome::InternalError,
        }
    }

    /// Reads a dispatcher's answer, taking a missing one for an internal
    /// error.
    pub fn from_answer(answer: Option<Self>) -> (outcome: Self)
        ensures
            outcome == Self::of_answer(answer),
    {
        match answer {
            Some(outcome) => outcome,
            None => ResponseOutcome::InternalError,
        }
    }
}

/// What is handed to the dispatcher with one request.
#[derive(Debug, PartialEq)]
pub struct DispatchCall<T> {
    /// A copy of the session's identity, taken when the request arrived.
    pub uat: Option<T>,
    /// The address of the client.
    pub client_address: PeerAddr,
    /// The request.
    pub protomsg: LdapMsg,
}

/// What the driver of a connection reports to the session.
#[derive(Debug, PartialEq)]
pub enum SessionEvent<T> {
    /// The codec decoded a request.
    Request(LdapMsg),
    /// The stream came to its end.
    StreamEnded,
    /// The bytes on the stream did not decode to a request.
    DecodeFailed,
    /// The dispatcher answered the request that was handed to it.
    Outcome(Option<ResponseOutcome<T>>),
    /// The frame that was handed out for writing was written (`true`) or
    /// could not be written (`false`).
    SendDone(bool),
}

/// What the session asks the driver of its connection to do next.
#[derive(Debug, PartialEq)]
pub enum SessionAction<T> {
    /// Await the next request from the codec.
    ReadRequest,
    /// Hand the request to the dispatcher and await its answer.
    Dispatch(DispatchCall<T>),
    /// Write this frame.
    Send(LdapMsg),
    /// Close the connection. Nothing is read or written any more.
    Close(CloseReason),
}

/// Where a session stands in its cycle.
pub enum SessionPhase {
    /// Waiting for the next request.
    AwaitingRequest,
    /// A request is with the dispatcher.
    AwaitingOutcome,
    /// A frame is being written. `queue` holds the frames that follow it, in
    /// order; `closing` says whether the session ends once all are written.
    Sending { queue: Seq<LdapMsg>, closing: Option<CloseReason> },
    /// The session is over.
    Closed,
}

/// The state of a session, as contracts speak of it.
pub struct SessionState<T> {
    /// The bound identity, if any.
    pub identity: Option<T>,
    /// The address of the client.
    pub peer: PeerAddr,
    /// Where the session stands in its cycle.
    pub phase: SessionPhase,
}

impl<T> SessionState<T> {
    /// The state of a connection that was just accepted.
    pub open spec fn fresh(peer: PeerAddr) -> Self {
        SessionState { identity: None, peer, phase: SessionPhase::AwaitingRequest }
    }

    /// Whether a bind has succeeded on the connection.
    pub open spec fn authenticated(self) -> bool {
        self.identity is Some
    }

    /// This state with another phase.
    pub open spec fn at(self, phase: SessionPhase) -> Self {
        SessionState { identity: self.identity, peer: self.peer, phase }
    }

    /// This state with another identity and phase.
    pub open spec fn bound_at(self, identity: Option<T>, phase: SessionPhase) -> Self {
        SessionState { identity, peer: self.peer, phase }
    }
}

/// What follows when `frames` are still to be sent and the session is to end
/// with `closing` after them: the first frame goes out, or, with none left, the
/// session closes or turns to the next request.
pub open spec fn proceed<T>(frames: Seq<LdapMsg>, closing: Option<CloseReason>) -> (
    SessionPhase,
    SessionAction<T>,
) {
    if frames.len() > 0 {
        (SessionPhase::Sending { queue: frames.skip(1), closing }, SessionAction::Send(frames[0]))
    } else {
        match closing {
            Some(reason) => (SessionPhase::Closed, SessionAction::Close(reason)),
            None => (SessionPhase::AwaitingRequest, SessionAction::ReadRequest),
        }
    }
}

/// The session's transition function: the state after `event`, and the action
/// that the driver is asked for.
///
/// A request is forwarded with the session's identity. The end of the
/// stream, or bytes that do not decode, end the session with nothing sent.
/// An outcome first replaces the identity if it carries a token, then its
/// frames go out one by one; a frame that cannot be written ends the session,
/// also in the middle of a batch. An event that the current phase does not
/// wait for ends the session too.
pub open spec fn session_step<T>(state: SessionState<T>, event: SessionEvent<T>) -> (
    SessionState<T>,
    SessionAction<T>,
) {
    match (state.phase, event) {
        (SessionPhase::AwaitingRequest, SessionEvent::Request(protomsg)) => (
            state.at(SessionPhase::AwaitingOutcome),
            SessionAction::Dispatch(
                DispatchCall { uat: state.identity, client_address: state.peer, protomsg },
            ),
        ),
        (SessionPhase::AwaitingRequest, SessionEvent::StreamEnded) => (
            state.at(SessionPhase::Closed),
            SessionAction::Close(CloseReason::StreamEnded),
        ),
        (SessionPhase::AwaitingRequest, SessionEvent::DecodeFailed) => (
            state.at(SessionPhase::Closed),
            SessionAction::Close(CloseReason::DecodeFailed),
        ),
        (SessionPhase::AwaitingOutcome, SessionEvent::Outcome(answer)) => {
            let outcome = ResponseOutcome::of_answer(answer);
            let next = proceed::<T>(outcome.frames(), outcome.closes());
            (state.bound_at(outcome.identity_after(state.identity), next.0), next.1)
        },
        (SessionPhase::Sending { queue, closing }, SessionEvent::SendDone(true)) => {
            let next = proceed::<T>(queue, closing);
            (state.at(next.0), next.1)
        },
        (SessionPhase::Sending { .. }, SessionEvent::SendDone(false)) => (
            state.at(SessionPhase::Closed),
            SessionAction::Close(CloseReason::WriteFailed),
        ),
        _ => (state.at(SessionPhase::Closed), SessionAction::Close(CloseReason::OutOfTurn)),
    }
}

/// Whether `copy` is what cloning `identity` may give: both absent, or both
/// present and the one a clone of the other.
pub open spec fn snapshot_of<T: Clone>(identity: Option<T>, copy: Option<T>) -> bool {
    match (identity, copy) {
        (None, None) => true,
        (Some(held), Some(copied)) => cloned(held, copied),
        _ => false,
    }
}

impl<T: Clone> SessionAction<T> {
    /// Whether this action is `intended`, with the identity of a dispatch
    /// call given as a clone of the intended one.
    pub open spec fn carries_out(self, intended: SessionAction<T>) -> bool {
        match (intended, self) {
            (SessionAction::Dispatch(want), SessionAction::Dispatch(got)) => {
                &&& snapshot_of(want.uat, got.uat)
                &&& got.client_address == want.client_address
                &&& got.protomsg == want.protomsg
            },
            _ => self == intended,
        }
    }
}

/// Builds the call that hands one request to the dispatcher: the request, the
/// client's address, and a copy of the session's identity as it is now.
pub fn client_process_msg<T: Clone>(
    session: &LdapSession<T>,
    client_address: PeerAddr,
    protomsg: LdapMsg,
) -> (call: DispatchCall<T>)
    ensures
        snapshot_of(session.uat, call.uat),
        call.client_address == client_address,
        call.protomsg == protomsg,
{
    let uat = session.uat.clone();
    DispatchCall { uat, client_address, protomsg }
}

/// The frames to send for one outcome, the identity that it leaves the
/// session with, and whether the session ends after them.
pub struct ResponsePlan<T> {
    /// The identity of the session from now on.
    pub uat: Option<T>,
    /// The frames to send, in order.
    pub frames: Vec<LdapMsg>,
    /// Whether the session ends once the frames are sent, and why.
    pub closing: Option<CloseReason>,
}

/// Reads one outcome against the identity that the session has: which
/// identity it has afterwards, which frames go out, and whether it ends.
pub fn interpret<T>(uat: Option<T>, outcome: ResponseOutcome<T>) -> (plan: ResponsePlan<T>)
    ensures
        plan.uat == outcome.identity_after(uat),
        plan.frames@ == outcome.frames(),
        plan.closing == outcome.closes(),
{
    match outcome {
        ResponseOutcome::Terminate => ResponsePlan {
            uat,
            frames: Vec::new(),
            closing: Some(CloseReason::Unbind),
        },
        ResponseOutcome::TerminateAfterSending(msg) => ResponsePlan {
            uat,
            frames: vec![msg],
            closing: Some(CloseReason::Disconnect),
        },
        ResponseOutcome::Bind(token, msg) => ResponsePlan {
            uat: Some(token),
            frames: vec![msg],
            closing: None,
        },
        ResponseOutcome::Send(msg) => ResponsePlan { uat, frames: vec![msg], closing: None },
        ResponseOutcome::SendMany(msgs) => ResponsePlan { uat, frames: msgs, closing: None },
        ResponseOutcome::BindSendMany(token, msgs) => ResponsePlan {
            uat: Some(token),
            frames: msgs,
            closing: None,
        },
        ResponseOutcome::InternalError => ResponsePlan {
            uat,
            frames: Vec::new(),
            closing: Some(CloseReason::InternalError),
        },
    }
}

/// The frames in the opposite order.
fn reversed(frames: Vec<LdapMsg>) -> (out: Vec<LdapMsg>)
    ensures
        out@ == frames@.reverse(),
{
    let ghost given = frames@;
    let mut rest = frames;
    let mut out: Vec<LdapMsg> = Vec::new();
    while rest.len() > 0
        invariant
            rest@.len() + out@.len() == given.len(),
            rest@ == given.take(rest@.len() as int),
            forall|i: int| 0 <= i < out@.len() ==> out@[i] == given[given.len() - 1 - i],
        decreases rest@.len(),
    {
        let frame = rest.pop();
        match frame {
            Some(frame) => {
                out.push(frame);
            },
            None => {},
        }
    }
    out
}

enum Phase {
    AwaitingRequest,
    AwaitingOutcome,
    /// `pending` holds the frames that follow the one being written, the
    /// next one last.
    Sending { pending: Vec<LdapMsg>, closing: Option<CloseReason> },
    Closed,
}

/// The session of one connection, driven by the events of that connection.
pub struct SessionMachine<T> {
    session: LdapSession<T>,
    client_address: PeerAddr,
    phase: Phase,
}

impl<T> View for SessionMachine<T> {
    type V = SessionState<T>;

    closed spec fn view(&self) -> SessionState<T> {
        SessionState {
            identity: self.session.uat,
            peer: self.client_address,
            phase: match self.phase {
                Phase::AwaitingRequest => SessionPhase::AwaitingRequest,
                Phase::AwaitingOutcome => SessionPhase::AwaitingOutcome,
                Phase::Sending { pending, closing } => SessionPhase::Sending {
                    queue: pending@.reverse(),
                    closing,
                },
                Phase::Closed => SessionPhase::Closed,
            },
        }
    }
}

impl<T: Clone> SessionMachine<T> {
    /// The session of a connection that was just accepted from
    /// `client_address`: unauthenticated, and waiting for its first request.
    pub fn new(client_address: PeerAddr) -> (machine: Self)
        ensures
            machine@ == SessionState::<T>::fresh(client_address),
    {
        SessionMachine { session: LdapSession::new(), client_address, phase: Phase::AwaitingRequest }
    }

    /// The bound identity, if any.
    pub fn identity(&self) -> (uat: &Option<T>)
        ensures
            *uat == self@.identity,
    {
        &self.session.uat
    }

    /// Whether a bind has succeeded on the connection.
    pub fn is_authenticated(&self) -> (yes: bool)
        ensures
            yes == self@.authenticated(),
    {
        self.session.uat.is_some()
    }

    /// Whether the session is over.
    pub fn is_closed(&self) -> (yes: bool)
        ensures
            yes == (self@.phase is Closed),
    {
        match self.phase {
            Phase::Closed => true,
            _ => false,
        }
    }

    /// Takes one event and says what to do next.
    ///
    /// The state moves as [`session_step`] says, and the action is the one it
    /// names. In a dispatch call the identity is a clone of the session's.
    pub fn step(self, event: SessionEvent<T>) -> (next: (Self, SessionAction<T>))
        ensures
            next.0@ == session_step(self@, event).0,
            next.1.carries_out(session_step(self@, event).1),
    {
        let SessionMachine { session, client_address, phase } = self;
        match (phase, event) {
            (Phase::AwaitingRequest, SessionEvent::Request(protomsg)) => {
                let call = client_process_msg(&session, client_address, protomsg);
                (
                    SessionMachine { session, client_address, phase: Phase::AwaitingOutcome },
                    SessionAction::Dispatch(call),
                )
            },
            (Phase::AwaitingRequest, SessionEvent::StreamEnded) => (
                SessionMachine { session, client_address, phase: Phase::Closed },
                SessionAction::Close(CloseReason::StreamEnded),
            ),
            (Phase::AwaitingRequest, SessionEvent::DecodeFailed) => (
                SessionMachine { session, client_address, phase: Phase::Closed },
                SessionAction::Close(CloseReason::DecodeFailed),
            ),
            (Phase::AwaitingOutcome, SessionEvent::Outcome(answer)) => {
                let outcome = ResponseOutcome::from_answer(answer);
                let plan = interpret(session.uat, outcome);
                let pending = reversed(plan.frames);
                proof {
                    lemma_reverse_twice(plan.frames@);
                }
                Self::send_next(LdapSession { uat: plan.uat }, client_address, pending, plan.closing)
            },
            (Phase::Sending { pending, closing }, SessionEvent::SendDone(true)) => Self::send_next(
                session,
                client_address,
                pending,
                closing,
            ),
            (Phase::Sending { .. }, SessionEvent::SendDone(false)) => (
                SessionMachine { session, client_address, phase: Phase::Closed },
                SessionAction::Close(CloseReason::WriteFailed),
            ),
            _ => (
                SessionMachine { session, client_address, phase: Phase::Closed },
                SessionAction::Close(CloseReason::OutOfTurn),
            ),
        }
    }

    /// Hands out the next pending frame, or closes or turns to the next
    /// request when none is left.
    fn send_next(
        session: LdapSession<T>,
        client_address: PeerAddr,
        pending: Vec<LdapMsg>,
        closing: Option<CloseReason>,
    ) -> (next: (Self, SessionAction<T>))
        ensures
            next.0@ == (SessionState {
                identity: session.uat,
                peer: client_address,
                phase: proceed::<T>(pending@.reverse(), closing).0,
            }),
            next.1 == proceed::<T>(pending@.reverse(), closing).1,
    {
        let mut pending = pending;
        let ghost before = pending@;
        match pending.pop() {
            Some(frame) => {
                proof {
                    lemma_reverse_pop(before);
                }
                (
                    SessionMachine { session, client_address, phase: Phase::Sending { pending, closing } },
                    SessionAction::Send(frame),
                )
            },
            None => match closing {
                Some(reason) => (
                    SessionMachine { session, client_address, phase: Phase::Closed },
                    SessionAction::Close(reason),
                ),
                None => (
                    SessionMachine { session, client_address, phase: Phase::AwaitingRequest },
                    SessionAction::ReadRequest,
                ),
            },
        }
    }
}

/// Reversing twice gives the sequence back.
proof fn lemma_reverse_twice<A>(s: Seq<A>)
    ensures
        s.reverse().reverse() == s,
{
    assert(s.reverse().reverse() =~= s);
}

/// The last element of a sequence is the first of its reverse, and the rest
/// of the reverse is the reverse of the rest.
proof fn lemma_reverse_pop<A>(s: Seq<A>)
    requires
        s.len() > 0,
    ensures
        s.reverse().len() > 0,
        s.reverse()[0] == s.last(),
        s.reverse().skip(1) == s.drop_last().reverse(),
{
    assert(s.reverse().skip(1) =~= s.drop_last().reverse());
}

} // verus!
