//! Plain data of the socket layer: TCP states, the IP version a socket is
//! built for, and the server's configuration.
use vstd::prelude::*;

use crate::find_sequence::min_int;

verus! {

/// The states of a TCP connection.
#[derive(Clone, Copy, PartialEq, Eq, Debug, Structural)]
pub enum State {
    /// The socket is closed and not connected to any remote endpoint.
    Closed,
    /// The socket is waiting for a connection request.
    Listen,
    /// A connection request was sent; waiting for the answer.
    SynSent,
    /// A connection request was received; waiting for its confirmation.
    SynReceived,
    /// The connection is open for data transfer.
    Established,
    /// We closed; waiting for the acknowledgment or the peer's close.
    FinWait1,
    /// We closed and were acknowledged; waiting for the peer's close.
    FinWait2,
    /// The peer closed; waiting for us to close.
    CloseWait,
    /// Both closed at once; waiting for the acknowledgment.
    Closing,
    /// The peer closed first, then we did; waiting for the last acknowledgment.
    LastAck,
    /// Waiting for delayed packets before the connection is forgotten.
    TimeWait,
}

/// IP version of a socket.
#[derive(Clone, Copy, PartialEq, Eq, Debug, Structural)]
pub enum IpVersion {
    /// IPv4 socket configuration.
    V4,
    /// IPv6 socket configuration.
    V6,
}

/// Builds TCP sockets of one IP version.
pub struct TokioTcpSocketBuilder {
    ip_version: IpVersion,
}

impl TokioTcpSocketBuilder {
    /// The IP version of the sockets it builds.
    pub closed spec fn version(self) -> IpVersion {
        self.ip_version
    }

    /// A builder of sockets of the given IP version.
    pub fn new(ip_version: IpVersion) -> (r: Self)
        ensures
            r.version() == ip_version,
    {
        Self { ip_version }
    }

    /// The IP version of the sockets it builds.
    pub fn ip_version(&self) -> (r: IpVersion)
        ensures
            r == self.version(),
    {
        self.ip_version
    }
}

/// Configuration options for the HTTP server.
#[derive(Clone, Copy, PartialEq, Eq, Debug, Structural)]
pub struct Config {
    /// Optional keepalive timeout in milliseconds.
    pub keepalive_timeout_ms: Option<u32>,
}

/// Moves the first bytes of `pending` into the front of `buf`, as many as
/// fit, and returns their number; `pending` keeps the rest, in order.
pub fn drain_pending_bytes(pending: &mut Vec<u8>, buf: &mut [u8]) -> (copied: usize)
    ensures
        copied == min_int(old(pending)@.len() as int, old(buf)@.len() as int),
        final(buf)@ == old(pending)@.subrange(0, copied as int) + old(buf)@.skip(copied as int),
        final(pending)@ == old(pending)@.skip(copied as int),
{
    let copied = if pending.len() < buf.len() {
        pending.len()
    } else {
        buf.len()
    };
    let ghost b0 = buf@;
    let mut i: usize = 0;
    while i < copied
        invariant
            i <= copied,
            copied <= pending@.len(),
            copied <= buf@.len(),
            buf@.len() == b0.len(),
            pending@ == old(pending)@,
            forall|j: int| 0 <= j < i ==> buf@[j] == pending@[j],
            forall|j: int| i <= j < buf@.len() ==> buf@[j] == b0[j],
        decreases copied - i,
    {
        buf[i] = pending[i];
        i = i + 1;
    }
    assert(buf@ =~= old(pending)@.subrange(0, copied as int) + b0.skip(copied as int));
    let rest = pending.split_off(copied);
    *pending = rest;
    copied
}

} // verus!
