//! Server bootstrap: what is checked, and in which order, before the
//! acceptor may start.
//!
//! The address is looked at first, for a shorthand that cannot work; then it
//! must parse; then the listening socket must bind; and then a TLS
//! configuration must be there, for the server never runs without TLS. The
//! driver does the parsing and the binding and reports how each went.

use crate::acceptor::AcceptorState;
use vstd::prelude::*;
use vstd::string::StringExecFns;

verus! {

/// Why the server did not start.
#[derive(Clone, Copy, Debug, PartialEq, Eq)]
pub enum BootstrapError {
    /// The listen address does not parse.
    AddressParseError,
    /// The listening socket could not be bound.
    BindError,
    /// No TLS configuration was supplied.
    TlsRequiredError,
}

/// The diagnostic for an address that tries to bind the IPv6 wildcard with
/// the shorthand `:::port`.
#[derive(Debug, PartialEq, Eq)]
pub struct WildcardHint {
    /// What follows the shorthand in the address: the port that was meant.
    pub port: String,
    /// The address to use in its place.
    pub suggestion: String,
}

/// Whether an address begins with the wildcard shorthand, three colons.
pub open spec fn is_wildcard_shorthand(address: Seq<char>) -> bool {
    &&& address.len() >= 3
    &&& address[0] == ':'
    &&& address[1] == ':'
    &&& address[2] == ':'
}

/// What follows the wildcard shorthand in an address.
pub open spec fn shorthand_port(address: Seq<char>) -> Seq<char> {
    address.skip(3)
}

/// The address that binds the IPv6 wildcard with this port number.
pub open spec fn wildcard_address(port: Seq<char>) -> Seq<char> {
    seq!['[', ':', ':', ']', ':'] + port
}

/// Looks for the wildcard shorthand at the start of an address. Where it is
/// there, the hint names the port behind it and the address to use instead.
pub fn wildcard_hint(address: &str) -> (hint: Option<WildcardHint>)
    ensures
        hint is Some <==> is_wildcard_shorthand(address@),
        hint matches Some(found) ==> found.port@ == shorthand_port(address@) && found.suggestion@
            == wildcard_address(shorthand_port(address@)),
{
    let len = address.unicode_len();
    if len >= 3 && address.get_char(0) == ':' && address.get_char(1) == ':' && address.get_char(2)
        == ':' {
        let port = address.substring_char(3, len);
        let mut suggestion = String::from_str("[::]:");
        suggestion.append(port);
        proof {
            reveal_strlit("[::]:");
            assert(address@.subrange(3, len as int) =~= address@.skip(3));
            assert("[::]:"@ =~= seq!['[', ':', ':', ']', ':']);
        }
        Some(WildcardHint { port: String::from_str(port), suggestion })
    } else {
        None
    }
}

/// What stops the bootstrap once the address has been parsed, if anything.
pub open spec fn parse_verdict(parsed: bool) -> Option<BootstrapError> {
    if parsed {
        None
    } else {
        Some(BootstrapError::AddressParseError)
    }
}

/// What stops the bootstrap once binding has been tried, if anything: a
/// socket that did not bind, or else a missing TLS configuration.
pub open spec fn bind_verdict(bound: bool, tls_configured: bool) -> Option<BootstrapError> {
    if !bound {
        Some(BootstrapError::BindError)
    } else if !tls_configured {
        Some(BootstrapError::TlsRequiredError)
    } else {
        None
    }
}

/// What stops a bootstrap, if anything, given how its steps would go. The
/// first step that fails decides; binding is not tried on an address that
/// does not parse.
pub open spec fn bootstrap_verdict(parsed: bool, bound: bool, tls_configured: bool) -> Option<
    BootstrapError,
> {
    match parse_verdict(parsed) {
        Some(error) => Some(error),
        None => bind_verdict(bound, tls_configured),
    }
}

/// A bootstrap that waits to hear whether the address parsed.
#[derive(Debug)]
pub struct Bootstrap {
    tls_configured: bool,
}

/// A bootstrap that waits to hear whether the listening socket was bound.
#[derive(Debug)]
pub struct Binding {
    tls_configured: bool,
}

impl Bootstrap {
    /// Whether a TLS configuration was supplied.
    pub closed spec fn tls_configured(self) -> bool {
        self.tls_configured
    }

    /// Takes the result of parsing the address: on success the socket is to
    /// be bound next, on failure the bootstrap is over.
    pub fn address_parsed(self, parsed: bool) -> (next: Result<Binding, BootstrapError>)
        ensures
            match parse_verdict(parsed) {
                Some(error) => next == Err::<Binding, BootstrapError>(error),
                None => next is Ok && next->Ok_0.tls_configured() == self.tls_configured(),
            },
    {
        if parsed {
            Ok(Binding { tls_configured: self.tls_configured })
        } else {
            Err(BootstrapError::AddressParseError)
        }
    }
}

impl Binding {
    /// Whether a TLS configuration was supplied.
    pub closed spec fn tls_configured(self) -> bool {
        self.tls_configured
    }

    /// Takes the result of binding the listening socket. With the socket
    /// bound and TLS configured, the acceptor starts, listening; with the
    /// socket bound and no TLS, or with no socket, the bootstrap is over.
    pub fn listener_bound(self, bound: bool) -> (next: Result<AcceptorState, BootstrapError>)
        ensures
            match bind_verdict(bound, self.tls_configured()) {
                Some(error) => next == Err::<AcceptorState, BootstrapError>(error),
                None => next == Ok::<AcceptorState, BootstrapError>(AcceptorState::Listening),
            },
    {
        if !bound {
            Err(BootstrapError::BindError)
        } else if !self.tls_configured {
            Err(BootstrapError::TlsRequiredError)
        } else {
            Ok(AcceptorState::Listening)
        }
    }
}

/// Begins the bootstrap of a server that is to listen on `address`.
///
/// The address is not parsed here. It is only looked at for the wildcard
/// shorthand, and the hint, where there is one, is to be shown before the
/// address is parsed: the shorthand alone does not end the bootstrap.
pub fn create_ldap_server(address: &str, tls_configured: bool) -> (begun: (
    Bootstrap,
    Option<WildcardHint>,
))
    ensures
        begun.0.tls_configured() == tls_configured,
        begun.1 is Some <==> is_wildcard_shorthand(address@),
        begun.1 matches Some(found) ==> found.port@ == shorthand_port(address@)
            && found.suggestion@ == wildcard_address(shorthand_port(address@)),
{
    (Bootstrap { tls_configured }, wildcard_hint(address))
}

/// The acceptor starts exactly when the address parses, the socket binds and
/// TLS is configured; and each way of failing has its own error: an address
/// that does not parse, whatever else holds; a socket that does not bind,
/// for an address that parsed; TLS missing, where all else went well.
pub proof fn bootstrap_verdict_by_cases(parsed: bool, bound: bool, tls_configured: bool)
    ensures
        bootstrap_verdict(parsed, bound, tls_configured) is None <==> parsed && bound
            && tls_configured,
        bootstrap_verdict(parsed, bound, tls_configured) == Some(BootstrapError::AddressParseError)
            <==> !parsed,
        bootstrap_verdict(parsed, bound, tls_configured) == Some(BootstrapError::BindError)
            <==> parsed && !bound,
        bootstrap_verdict(parsed, bound, tls_configured) == Some(BootstrapError::TlsRequiredError)
            <==> parsed && bound && !tls_configured,
{
}

} // verus!
