//! The protocol message that travels through a session.

use vstd::prelude::*;

verus! {

/// `ldap3_proto::proto::LdapMsg`, one decoded protocol message. The session
/// logic never looks inside a message: it only routes it, so the type is
/// declared without its fields.
#[verifier::external_type_specification]
#[verifier::external_body]
pub struct ExLdapMsg(ldap3_proto::proto::LdapMsg);

} // verus!
