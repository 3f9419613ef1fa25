use ldaps_listener::acceptor::AcceptorState;
use ldaps_listener::bootstrap::{create_ldap_server, wildcard_hint, BootstrapError, WildcardHint};

#[test]
fn address_that_does_not_parse_aborts() {
    let (bootstrap, hint) = create_ldap_server("not-an-address", true);
    assert_eq!(hint, None);
    let next = bootstrap.address_parsed(false);
    assert_eq!(next.err(), Some(BootstrapError::AddressParseError));
}

#[test]
fn missing_tls_configuration_aborts() {
    let (bootstrap, hint) = create_ldap_server("127.0.0.1:3636", false);
    assert_eq!(hint, None);
    let binding = bootstrap.address_parsed(true).expect("the address parses");
    assert_eq!(binding.listener_bound(true), Err(BootstrapError::TlsRequiredError));
}

#[test]
fn wildcard_shorthand_gets_a_hint_and_fails_to_parse() {
    let (bootstrap, hint) = create_ldap_server(":::3890", true);
    assert_eq!(
        hint,
        Some(WildcardHint { port: "3890".to_string(), suggestion: "[::]:3890".to_string() })
    );
    let next = bootstrap.address_parsed(false);
    assert_eq!(next.err(), Some(BootstrapError::AddressParseError));
}

#[test]
fn bind_failure_aborts() {
    let (bootstrap, _) = create_ldap_server("127.0.0.1:636", true);
    let binding = bootstrap.address_parsed(true).expect("the address parses");
    assert_eq!(binding.listener_bound(false), Err(BootstrapError::BindError));
}

#[test]
fn bind_failure_comes_before_the_tls_check() {
    let (bootstrap, _) = create_ldap_server("127.0.0.1:636", false);
    let binding = bootstrap.address_parsed(true).expect("the address parses");
    assert_eq!(binding.listener_bound(false), Err(BootstrapError::BindError));
}

#[test]
fn parse_failure_comes_before_everything_else() {
    let (bootstrap, _) = create_ldap_server("nonsense", false);
    assert_eq!(bootstrap.address_parsed(false).err(), Some(BootstrapError::AddressParseError));
}

#[test]
fn bootstrap_with_everything_in_place_starts_listening() {
    let (bootstrap, hint) = create_ldap_server("[::]:3636", true);
    assert_eq!(hint, None);
    let binding = bootstrap.address_parsed(true).expect("the address parses");
    assert_eq!(binding.listener_bound(true), Ok(AcceptorState::Listening));
}

#[test]
fn hint_is_given_only_for_three_leading_colons() {
    assert_eq!(wildcard_hint(""), None);
    assert_eq!(wildcard_hint(":"), None);
    assert_eq!(wildcard_hint("::"), None);
    assert_eq!(wildcard_hint("::1"), None);
    assert_eq!(wildcard_hint("[::]:3890"), None);
    assert_eq!(wildcard_hint("127.0.0.1:::"), None);
    assert_eq!(wildcard_hint(" :::3890"), None);
}

#[test]
fn hint_takes_everything_behind_the_shorthand_as_port() {
    assert_eq!(
        wildcard_hint(":::"),
        Some(WildcardHint { port: String::new(), suggestion: "[::]:".to_string() })
    );
    assert_eq!(
        wildcard_hint("::::636"),
        Some(WildcardHint { port: ":636".to_string(), suggestion: "[::]::636".to_string() })
    );
    assert_eq!(
        wildcard_hint(":::ldäps"),
        Some(WildcardHint { port: "ldäps".to_string(), suggestion: "[::]:ldäps".to_string() })
    );
    assert_eq!(
        wildcard_hint(":::3890:::"),
        Some(WildcardHint { port: "3890:::".to_string(), suggestion: "[::]:3890:::".to_string() })
    );
}
