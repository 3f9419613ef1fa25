use ldap3_proto::proto::{LdapMsg, LdapOp};
use ldaps_listener::acceptor::{
    AcceptorAction, AcceptorEvent, AcceptorFault, AcceptorState, CoreAction,
};
use ldaps_listener::peer::{PeerAddr, PeerIp};
use ldaps_listener::session::{
    CloseReason, ResponseOutcome, SessionAction, SessionEvent, SessionMachine,
};

fn client(port: u16) -> PeerAddr {
    PeerAddr { ip: PeerIp::V6([0x20, 0x01, 0x0d, 0xb8, 0, 0, 0, 0, 0, 0, 0, 0, 0, 0, 0, 1]), port }
}

#[test]
fn accepted_connection_is_upgraded_then_served() {
    let (state, action) = AcceptorState::Listening.step(AcceptorEvent::Accepted(client(1)));
    assert_eq!(state, AcceptorState::Handshaking(client(1)));
    assert_eq!(action, AcceptorAction::Handshake);
    let (state, action) = state.step(AcceptorEvent::TlsEstablished);
    assert_eq!(state, AcceptorState::Listening);
    assert_eq!(action, AcceptorAction::Serve(client(1)));
}

#[test]
fn accept_error_is_discarded_and_listening_goes_on() {
    let (state, action) = AcceptorState::Listening.step(AcceptorEvent::AcceptFailed);
    assert_eq!(state, AcceptorState::Listening);
    assert_eq!(action, AcceptorAction::Discard(AcceptorFault::Accept));
}

#[test]
fn tls_setup_failure_drops_only_that_connection() {
    let (state, _) = AcceptorState::Listening.step(AcceptorEvent::Accepted(client(1)));
    let (state, action) = state.step(AcceptorEvent::TlsSetupFailed);
    assert_eq!(state, AcceptorState::Listening);
    assert_eq!(action, AcceptorAction::Discard(AcceptorFault::TlsSetup));
}

#[test]
fn handshake_failures_never_stop_the_acceptor() {
    let mut state = AcceptorState::Listening;
    for port in 1..=500u16 {
        let (next, action) = state.step(AcceptorEvent::Accepted(client(port)));
        assert_eq!(action, AcceptorAction::Handshake);
        let failure = if port % 2 == 0 {
            AcceptorEvent::TlsAcceptFailed
        } else {
            AcceptorEvent::TlsSetupFailed
        };
        let (next, action) = next.step(failure);
        let fault =
            if port % 2 == 0 { AcceptorFault::TlsAccept } else { AcceptorFault::TlsSetup };
        assert_eq!(action, AcceptorAction::Discard(fault));
        assert_eq!(next, AcceptorState::Listening);
        state = next;
    }
    let (state, action) = state.step(AcceptorEvent::Accepted(client(9000)));
    assert_eq!(action, AcceptorAction::Handshake);
    let (state, action) = state.step(AcceptorEvent::TlsEstablished);
    assert_eq!(action, AcceptorAction::Serve(client(9000)));
    assert_eq!(state, AcceptorState::Listening);
}

#[test]
fn shutdown_stops_the_acceptor() {
    let (state, action) =
        AcceptorState::Listening.step(AcceptorEvent::Control(CoreAction::Shutdown));
    assert_eq!(state, AcceptorState::Stopped);
    assert_eq!(action, AcceptorAction::Stop);
}

#[test]
fn no_connection_is_accepted_after_shutdown() {
    let (mut state, _) =
        AcceptorState::Listening.step(AcceptorEvent::Control(CoreAction::Shutdown));
    let later = [
        AcceptorEvent::Accepted(client(1)),
        AcceptorEvent::TlsEstablished,
        AcceptorEvent::AcceptFailed,
        AcceptorEvent::TlsSetupFailed,
        AcceptorEvent::TlsAcceptFailed,
        AcceptorEvent::Control(CoreAction::Shutdown),
        AcceptorEvent::Accepted(client(2)),
    ];
    for event in later {
        let (next, action) = state.step(event);
        assert_eq!(action, AcceptorAction::Stop);
        assert_eq!(next, AcceptorState::Stopped);
        state = next;
    }
}

#[test]
fn shutdown_during_a_handshake_stops_without_serving() {
    let (state, _) = AcceptorState::Listening.step(AcceptorEvent::Accepted(client(1)));
    let (state, action) = state.step(AcceptorEvent::Control(CoreAction::Shutdown));
    assert_eq!(action, AcceptorAction::Stop);
    let (state, action) = state.step(AcceptorEvent::TlsEstablished);
    assert_eq!(action, AcceptorAction::Stop);
    assert_eq!(state, AcceptorState::Stopped);
}

#[test]
fn acceptor_event_out_of_turn_is_discarded() {
    let (state, action) = AcceptorState::Listening.step(AcceptorEvent::TlsEstablished);
    assert_eq!(action, AcceptorAction::Discard(AcceptorFault::OutOfTurn));
    assert_eq!(state, AcceptorState::Listening);

    let (state, _) = state.step(AcceptorEvent::Accepted(client(1)));
    let (state, action) = state.step(AcceptorEvent::Accepted(client(2)));
    assert_eq!(action, AcceptorAction::Discard(AcceptorFault::OutOfTurn));
    assert_eq!(state, AcceptorState::Listening);

    let (state, _) = state.step(AcceptorEvent::Accepted(client(3)));
    let (state, action) = state.step(AcceptorEvent::AcceptFailed);
    assert_eq!(action, AcceptorAction::Discard(AcceptorFault::OutOfTurn));
    assert_eq!(state, AcceptorState::Listening);
}

#[test]
fn open_session_runs_on_after_shutdown() {
    let (state, _) = AcceptorState::Listening.step(AcceptorEvent::Accepted(client(7)));
    let (state, action) = state.step(AcceptorEvent::TlsEstablished);
    let served = match action {
        AcceptorAction::Serve(peer) => peer,
        other => panic!("expected a session, got {:?}", other),
    };
    let session = SessionMachine::<u32>::new(served);

    let (state, action) = state.step(AcceptorEvent::Control(CoreAction::Shutdown));
    assert_eq!(action, AcceptorAction::Stop);
    assert_eq!(state, AcceptorState::Stopped);

    let request = LdapMsg::new(1, LdapOp::AbandonRequest(4));
    let answer = LdapMsg::new(1, LdapOp::AbandonRequest(5));
    let (session, action) = session.step(SessionEvent::Request(request.clone()));
    match action {
        SessionAction::Dispatch(call) => {
            assert_eq!(call.client_address, client(7));
            assert_eq!(call.protomsg, request);
            assert_eq!(call.uat, None);
        }
        other => panic!("expected a dispatch, got {:?}", other),
    }
    let (session, action) =
        session.step(SessionEvent::Outcome(Some(ResponseOutcome::Send(answer.clone()))));
    assert_eq!(action, SessionAction::Send(answer));
    let (session, action) = session.step(SessionEvent::SendDone(true));
    assert_eq!(action, SessionAction::ReadRequest);
    let (session, action) = session.step(SessionEvent::StreamEnded);
    assert_eq!(action, SessionAction::Close(CloseReason::StreamEnded));
    assert!(session.is_closed());
}
