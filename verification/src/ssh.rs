//! Where to connect: splitting a host string into host name and port, and the
//! error of a connection that could not be made.

use crate::text::{
    chars_of, find_first, first_in, lemma_first_in, lemma_first_in_is, parse_u16, read_u16,
    string_of_range, CharClass,
};
use vstd::prelude::*;
use vstd::string::*;

verus! {

/// The port used when a host string names none.
pub const DEFAULT_PORT: u16 = 22;

/// A host name together with the TCP port to connect to.
#[derive(Debug, Clone, PartialEq, Eq)]
pub struct HostPort {
    pub hostname: String,
    pub port: u16,
}

/// The host name in a host string: what stands before its first colon, or all
/// of it when it holds none.
pub open spec fn host_of(host: Seq<char>) -> Seq<char> {
    host.take(first_in(host, CharClass::Is(':')))
}

/// The port in a host string: the number after its first colon, and
/// `DEFAULT_PORT` when there is no colon or what follows it is no 16-bit number.
pub open spec fn port_of(host: Seq<char>) -> u16 {
    let n = first_in(host, CharClass::Is(':'));
    if n < host.len() {
        match parse_u16(host.skip(n + 1)) {
            Some(port) => port,
            None => DEFAULT_PORT,
        }
    } else {
        DEFAULT_PORT
    }
}

/// Splits `host` at its first colon into host name and port.
pub fn parse_host_port(host: &str) -> (r: HostPort)
    ensures
        r.hostname@ == host_of(host@),
        r.port == port_of(host@),
{
    let chars = chars_of(host);
    let colon = find_first(&chars, 0, CharClass::Is(':'));
    assert(chars@.skip(0) == chars@);
    let hostname = string_of_range(&chars, 0, colon);
    if colon < chars.len() {
        let port = match read_u16(&chars, colon + 1) {
            Some(port) => port,
            None => DEFAULT_PORT,
        };
        HostPort { hostname, port }
    } else {
        HostPort { hostname, port: DEFAULT_PORT }
    }
}

/// A host string `h:p` whose `h` holds no colon has host name `h`, and the port
/// that `p` denotes, or the default port when `p` denotes none.
pub proof fn lemma_host_with_port(h: Seq<char>, p: Seq<char>)
    requires
        !h.contains(':'),
    ensures
        host_of(h + seq![':'] + p) == h,
        port_of(h + seq![':'] + p) == match parse_u16(p) {
            Some(port) => port,
            None => DEFAULT_PORT,
        },
{
    let host = h + seq![':'] + p;
    let class = CharClass::Is(':');
    assert forall|j: int| 0 <= j < h.len() implies !class.holds(#[trigger] host[j]) by {
        assert(host[j] == h[j]);
        assert(h.contains(h[j]));
    }
    assert(host[h.len() as int] == ':');
    lemma_first_in_is(host, class, h.len() as int);
    assert(host.take(h.len() as int) =~= h);
    assert(host.skip(h.len() as int + 1) =~= p);
}

/// A host string without a colon is its own host name, with the default port.
pub proof fn lemma_host_without_port(host: Seq<char>)
    requires
        !host.contains(':'),
    ensures
        host_of(host) == host,
        port_of(host) == DEFAULT_PORT,
{
    let class = CharClass::Is(':');
    lemma_first_in(host, class);
    let n = first_in(host, class);
    if n < host.len() {
        assert(host.contains(host[n]));
    }
    assert(host.take(host.len() as int) =~= host);
}

/// Why a connection could not be made.
#[derive(Debug, Clone, Copy, PartialEq, Eq)]
pub enum ConnectFailure {
    /// The handshake did not finish within the time allowed.
    Timeout,
    /// The transport or the authentication failed.
    Handshake,
}

/// A connection that could not be made, with the cause as the transport
/// reported it.
#[derive(Debug, Clone, PartialEq, Eq)]
pub struct ConnectError {
    pub kind: ConnectFailure,
    pub cause: String,
}

impl ConnectError {
    /// The text shown to the user: both kinds read as a failed connection,
    /// followed by the cause.
    pub fn message(&self) -> (m: String)
        ensures
            m@ == "SSH connection failed - "@ + self.cause@,
    {
        let mut m = "SSH connection failed - ".to_string();
        m.append(self.cause.as_str());
        m
    }
}

} // verus!
