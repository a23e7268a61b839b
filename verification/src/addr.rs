//! Peer addresses as plain values.

use vstd::prelude::*;

use crate::table::Key;
use crate::text::{decimal, show};

verus! {

/// An IP address, as the integer that it is.
#[derive(Clone, Copy, Debug, PartialEq, Eq, Structural)]
pub enum PeerIp {
    /// IPv4.
    V4(u32),
    /// IPv6.
    V6(u128),
}

/// An IP address and a port.
#[derive(Clone, Copy, Debug, PartialEq, Eq, Structural)]
pub struct PeerAddr {
    /// The address.
    pub ip: PeerIp,
    /// The port.
    pub port: u16,
}

impl DeepView for PeerIp {
    type V = PeerIp;

    open spec fn deep_view(&self) -> PeerIp {
        *self
    }
}

impl DeepView for PeerAddr {
    type V = PeerAddr;

    open spec fn deep_view(&self) -> PeerAddr {
        *self
    }
}

impl Key for PeerIp {
    fn same_key(&self, other: &Self) -> (r: bool) {
        *self == *other
    }
}

impl Key for PeerAddr {
    fn same_key(&self, other: &Self) -> (r: bool) {
        *self == *other
    }
}

/// A host and a port, in a row.
pub open spec fn host_port(host: Seq<char>, port: u16) -> Seq<char> {
    host + ":"@ + decimal(port as nat)
}

/// Executable form of [`host_port`].
pub fn show_host_port(host: &str, port: u16) -> (r: String)
    ensures
        r@ == host_port(host@, port),
{
    let mut out = host.to_owned();
    out.append(":");
    out.append(show(port as u64).as_str());
    out
}

/// A host and its port are told apart again at the colon, and the port is read back.
pub proof fn law_host_and_port(host: Seq<char>, port: u16)
    requires
        !host.contains(':'),
    ensures
        crate::text::cut(host_port(host, port), ':') == Some((host, decimal(port as nat))),
        crate::text::parsed_usize(decimal(port as nat)) == Some(port as usize),
{
    reveal_strlit(":");
    assert(":"@ =~= seq![':']);
    crate::text::law_pieces_are_cut(host, ':', decimal(port as nat));
    crate::text::law_number_is_read_back(port as usize);
}

} // verus!
