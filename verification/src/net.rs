//! Plain-value models of the network metadata that rides along with every
//! received datagram: addresses, per-slot receive metadata, read errors.

use vstd::prelude::*;

verus! {

/// An IP address held as plain integers.
#[derive(Clone, Copy, PartialEq, Eq, Debug)]
#[allow(inconsistent_fields)]
pub enum NetIp {
    V4 { ip: u32 },
    V6 { ip: u128 },
}

/// A socket address: an IP address and a port.
#[derive(Clone, Copy, PartialEq, Eq, Debug)]
pub struct NetAddr {
    pub ip: NetIp,
    pub port: u16,
}

/// Per-slot receive metadata as the kernel reports it: source address,
/// byte length, coalescing stride, optional congestion-marking bits, and
/// the destination address the datagram was received on, when known.
#[derive(Clone, Copy, PartialEq, Eq, Debug)]
pub struct PacketMeta {
    pub addr: NetAddr,
    pub len: usize,
    pub stride: usize,
    pub ecn: Option<u8>,
    pub dst_ip: Option<NetIp>,
}

/// The address family a datagram arrived through.
#[derive(Clone, Copy, PartialEq, Eq, Debug)]
pub enum Network {
    Ipv4,
    Ipv6,
}

/// The family tag carried on a forwarded read outcome; `Derp` is the
/// relayed fallback path, never produced by the two direct sockets here.
#[derive(Clone, Copy, PartialEq, Eq, Debug)]
pub enum NetworkSource {
    Ipv4,
    Ipv6,
    Derp,
}

/// A whole-call read failure, reduced to the OS error code when one exists.
#[derive(Clone, Copy, PartialEq, Eq, Debug)]
pub struct ReadError {
    pub os_code: Option<i32>,
}

/// The family tag under which a datagram from `network` is forwarded.
pub open spec fn source_of(network: Network) -> NetworkSource {
    match network {
        Network::Ipv4 => NetworkSource::Ipv4,
        Network::Ipv6 => NetworkSource::Ipv6,
    }
}

} // verus!
