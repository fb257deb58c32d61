//! Which host a TLS handshake's certificate signals are filed under.
//!
//! The upstream verifier stashes what the server's leaf certificate showed
//! for the trust panel, keyed by the lowercase DNS name the handshake was
//! for. Raw-IP handshakes are not filed: an IP URL is already flagged by
//! the scam scorer elsewhere.

use vstd::prelude::*;

use crate::text::{lower, lowercase};

verus! {

/// The name a TLS handshake was made for, as the TLS library reports it.
#[derive(Debug, Clone, PartialEq, Eq)]
pub enum TlsServerName {
    /// A DNS name, as given.
    DnsName(String),
    /// A raw IP address, in its text form.
    IpAddress(String),
}

/// The host a handshake's signals are filed under: the DNS name in ASCII
/// lowercase, or empty for an IP address.
pub open spec fn filed_host(name: TlsServerName) -> Seq<char> {
    match name {
        TlsServerName::DnsName(d) => lower(d@),
        TlsServerName::IpAddress(_) => Seq::empty(),
    }
}

/// The host a handshake's signals are filed under.
pub fn server_name_host(name: &TlsServerName) -> (r: String)
    ensures
        r@ == filed_host(*name),
{
    match name {
        TlsServerName::DnsName(d) => lowercase(d.as_str()),
        TlsServerName::IpAddress(_) => String::new(),
    }
}

} // verus!
