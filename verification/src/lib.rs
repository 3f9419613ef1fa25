//! Decision logic of an LDAPS front-end: what a server bootstrap, a
//! connection acceptor and a per-connection session do in response to each
//! thing that happens on the network, stated as verified state machines.
//!
//! Nothing here touches a socket. A driver performs the action that a
//! machine asks for and reports back what came of it as the next event.

pub mod acceptor;
pub mod bootstrap;
pub mod front_end;
pub mod peer;
pub mod session;
pub mod session_trace;
pub mod wire;
