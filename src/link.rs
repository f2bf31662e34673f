//! Locators, endpoints and links: where a link goes and what it can carry.
use vstd::prelude::*;
use crate::properties::Properties;

verus! {

/// An IP address: four octets, or the high and low halves of sixteen.
#[derive(Clone, Copy, Debug, PartialEq, Eq, Structural)]
pub enum IpAddr {
    V4(u8, u8, u8, u8),
    V6(u64, u64),
}

impl IpAddr {
    /// IPv4 addresses 224.0.0.0 to 239.255.255.255 and IPv6 addresses ff00::/8.
    pub open spec fn spec_is_multicast(self) -> bool {
        match self {
            IpAddr::V4(a, _, _, _) => 224 <= a <= 239,
            IpAddr::V6(hi, _) => hi / 0x100_0000_0000_0000 == 0xff,
        }
    }

    pub fn is_multicast(&self) -> (r: bool)
        ensures
            r == self.spec_is_multicast(),
    {
        match self {
            IpAddr::V4(a, _, _, _) => 224 <= *a && *a <= 239,
            IpAddr::V6(hi, _) => *hi / 0x100_0000_0000_0000 == 0xff,
        }
    }
}

/// An IP address and a port.
#[derive(Clone, Copy, Debug, PartialEq, Eq, Structural)]
pub struct SocketAddr {
    pub ip: IpAddr,
    pub port: u16,
}

/// The protocol of a locator.
#[derive(Clone, Copy, Debug, PartialEq, Eq, Structural)]
pub enum LocatorProtocol {
    Tcp,
    Udp,
    Tls,
    Quic,
    UnixSockStream,
    Shm,
}

/// The address of a TLS locator: a socket address, or a DNS name with a port.
#[derive(Clone, Debug, PartialEq, Eq)]
pub enum LocatorTls {
    SocketAddr(SocketAddr),
    DnsName(String),
}

pub enum LocatorTlsV {
    SocketAddr(SocketAddr),
    DnsName(Seq<char>),
}

impl View for LocatorTls {
    type V = LocatorTlsV;

    open spec fn view(&self) -> LocatorTlsV {
        match self {
            LocatorTls::SocketAddr(a) => LocatorTlsV::SocketAddr(*a),
            LocatorTls::DnsName(n) => LocatorTlsV::DnsName(n@),
        }
    }
}

impl LocatorTls {
    pub fn same(&self, other: &LocatorTls) -> (r: bool)
        ensures
            r == (self@ == other@),
    {
        match (self, other) {
            (LocatorTls::SocketAddr(a), LocatorTls::SocketAddr(b)) => *a == *b,
            (LocatorTls::DnsName(a), LocatorTls::DnsName(b)) => *a == *b,
            _ => false,
        }
    }
}

impl LocatorTls {
    pub fn duplicate(&self) -> (r: LocatorTls)
        ensures
            r@ == self@,
    {
        match self {
            LocatorTls::SocketAddr(a) => LocatorTls::SocketAddr(*a),
            LocatorTls::DnsName(n) => LocatorTls::DnsName(n.clone()),
        }
    }
}

/// The address of a QUIC locator: a socket address, or a DNS name with a port.
#[derive(Clone, Debug, PartialEq, Eq)]
pub enum LocatorQuic {
    SocketAddr(SocketAddr),
    DnsName(String),
}

pub enum LocatorQuicV {
    SocketAddr(SocketAddr),
    DnsName(Seq<char>),
}

impl View for LocatorQuic {
    type V = LocatorQuicV;

    open spec fn view(&self) -> LocatorQuicV {
        match self {
            LocatorQuic::SocketAddr(a) => LocatorQuicV::SocketAddr(*a),
            LocatorQuic::DnsName(n) => LocatorQuicV::DnsName(n@),
        }
    }
}

impl LocatorQuic {
    pub fn same(&self, other: &LocatorQuic) -> (r: bool)
        ensures
            r == (self@ == other@),
    {
        match (self, other) {
            (LocatorQuic::SocketAddr(a), LocatorQuic::SocketAddr(b)) => *a == *b,
            (LocatorQuic::DnsName(a), LocatorQuic::DnsName(b)) => *a == *b,
            _ => false,
        }
    }
}

impl LocatorQuic {
    pub fn duplicate(&self) -> (r: LocatorQuic)
        ensures
            r@ == self@,
    {
        match self {
            LocatorQuic::SocketAddr(a) => LocatorQuic::SocketAddr(*a),
            LocatorQuic::DnsName(n) => LocatorQuic::DnsName(n.clone()),
        }
    }
}

/// The address of a locator, by protocol.
#[derive(Clone, Debug, PartialEq, Eq)]
pub enum LocatorAddress {
    Tcp(SocketAddr),
    Udp(SocketAddr),
    Tls(LocatorTls),
    Quic(LocatorQuic),
    UnixSockStream(String),
    Shm(String),
}

pub enum LocatorAddressV {
    Tcp(SocketAddr),
    Udp(SocketAddr),
    Tls(LocatorTlsV),
    Quic(LocatorQuicV),
    UnixSockStream(Seq<char>),
    Shm(Seq<char>),
}

impl View for LocatorAddress {
    type V = LocatorAddressV;

    open spec fn view(&self) -> LocatorAddressV {
        match self {
            LocatorAddress::Tcp(a) => LocatorAddressV::Tcp(*a),
            LocatorAddress::Udp(a) => LocatorAddressV::Udp(*a),
            LocatorAddress::Tls(a) => LocatorAddressV::Tls(a@),
            LocatorAddress::Quic(a) => LocatorAddressV::Quic(a@),
            LocatorAddress::UnixSockStream(p) => LocatorAddressV::UnixSockStream(p@),
            LocatorAddress::Shm(p) => LocatorAddressV::Shm(p@),
        }
    }
}

pub open spec fn address_proto(a: LocatorAddressV) -> LocatorProtocol {
    match a {
        LocatorAddressV::Tcp(_) => LocatorProtocol::Tcp,
        LocatorAddressV::Udp(_) => LocatorProtocol::Udp,
        LocatorAddressV::Tls(_) => LocatorProtocol::Tls,
        LocatorAddressV::Quic(_) => LocatorProtocol::Quic,
        LocatorAddressV::UnixSockStream(_) => LocatorProtocol::UnixSockStream,
        LocatorAddressV::Shm(_) => LocatorProtocol::Shm,
    }
}

/// Only a UDP address can be multicast, where its IP address is.
pub open spec fn address_is_multicast(a: LocatorAddressV) -> bool {
    match a {
        LocatorAddressV::Udp(s) => s.ip.spec_is_multicast(),
        _ => false,
    }
}

impl LocatorAddress {
    pub fn get_proto(&self) -> (r: LocatorProtocol)
        ensures
            r == address_proto(self@),
    {
        match self {
            LocatorAddress::Tcp(_) => LocatorProtocol::Tcp,
            LocatorAddress::Udp(_) => LocatorProtocol::Udp,
            LocatorAddress::Tls(_) => LocatorProtocol::Tls,
            LocatorAddress::Quic(_) => LocatorProtocol::Quic,
            LocatorAddress::UnixSockStream(_) => LocatorProtocol::UnixSockStream,
            LocatorAddress::Shm(_) => LocatorProtocol::Shm,
        }
    }

    pub fn is_multicast(&self) -> (r: bool)
        ensures
            r == address_is_multicast(self@),
    {
        match self {
            LocatorAddress::Udp(s) => s.ip.is_multicast(),
            _ => false,
        }
    }

    pub fn same(&self, other: &LocatorAddress) -> (r: bool)
        ensures
            r == (self@ == other@),
    {
        match (self, other) {
            (LocatorAddress::Tcp(a), LocatorAddress::Tcp(b)) => *a == *b,
            (LocatorAddress::Udp(a), LocatorAddress::Udp(b)) => *a == *b,
            (LocatorAddress::Tls(a), LocatorAddress::Tls(b)) => a.same(b),
            (LocatorAddress::Quic(a), LocatorAddress::Quic(b)) => a.same(b),
            (LocatorAddress::UnixSockStream(a), LocatorAddress::UnixSockStream(b)) => *a == *b,
            (LocatorAddress::Shm(a), LocatorAddress::Shm(b)) => *a == *b,
            _ => false,
        }
    }
}

/// Where a link goes.
#[derive(Clone, Debug, PartialEq, Eq)]
pub struct Locator {
    pub address: LocatorAddress,
}

impl View for Locator {
    type V = LocatorAddressV;

    open spec fn view(&self) -> LocatorAddressV {
        self.address@
    }
}

impl Locator {
    pub fn same(&self, other: &Locator) -> (r: bool)
        ensures
            r == (self@ == other@),
    {
        self.address.same(&other.address)
    }
}

/// A locator with the configuration to reach it.
#[derive(Clone, Debug)]
pub struct EndPoint {
    pub locator: Locator,
    pub config: Option<Properties>,
}

/// A link as the transport sees it: its two ends and what it carries.
#[derive(Clone, Debug, PartialEq, Eq)]
pub struct Link {
    pub src: Locator,
    pub dst: Locator,
    pub mtu: usize,
    pub is_reliable: bool,
    pub is_streamed: bool,
}

pub struct LinkV {
    pub src: LocatorAddressV,
    pub dst: LocatorAddressV,
    pub mtu: usize,
    pub is_reliable: bool,
    pub is_streamed: bool,
}

impl View for Link {
    type V = LinkV;

    open spec fn view(&self) -> LinkV {
        LinkV {
            src: self.src@,
            dst: self.dst@,
            mtu: self.mtu,
            is_reliable: self.is_reliable,
            is_streamed: self.is_streamed,
        }
    }
}

impl Link {
    /// Whether both links join the same two ends.
    pub fn same_ends(&self, other: &Link) -> (r: bool)
        ensures
            r == (self.src@ == other.src@ && self.dst@ == other.dst@),
    {
        self.src.same(&other.src) && self.dst.same(&other.dst)
    }

    pub fn duplicate(&self) -> (r: Link)
        ensures
            r@ == self@,
    {
        Link {
            src: Locator { address: self.src.address.duplicate() },
            dst: Locator { address: self.dst.address.duplicate() },
            mtu: self.mtu,
            is_reliable: self.is_reliable,
            is_streamed: self.is_streamed,
        }
    }
}

impl LocatorAddress {
    pub fn duplicate(&self) -> (r: LocatorAddress)
        ensures
            r@ == self@,
    {
        match self {
            LocatorAddress::Tcp(a) => LocatorAddress::Tcp(*a),
            LocatorAddress::Udp(a) => LocatorAddress::Udp(*a),
            LocatorAddress::Tls(a) => LocatorAddress::Tls(a.duplicate()),
            LocatorAddress::Quic(a) => LocatorAddress::Quic(a.duplicate()),
            LocatorAddress::UnixSockStream(p) => LocatorAddress::UnixSockStream(p.clone()),
            LocatorAddress::Shm(p) => LocatorAddress::Shm(p.clone()),
        }
    }
}

/// The MTU that a batch may take on a link: a stream link prefixes each
/// batch with a two-byte length, so it carries at most 65535 bytes.
pub open spec fn batch_limit(l: LinkV) -> nat {
    if l.is_streamed && l.mtu > 0xffff {
        0xffff
    } else {
        l.mtu as nat
    }
}

impl Link {
    pub fn batch_size(&self) -> (r: usize)
        ensures
            r == batch_limit(self@),
    {
        if self.is_streamed && self.mtu > 0xffff {
            0xffff
        } else {
            self.mtu
        }
    }
}

/// Frames one batch for a stream link: its length in two bytes, big-endian, then the batch.
pub fn frame_for_stream(batch: &Vec<u8>) -> (r: Option<Vec<u8>>)
    ensures
        batch@.len() <= 0xffff ==> (r matches Some(b) && b@ == seq![
            (batch@.len() / 256) as u8,
            (batch@.len() % 256) as u8,
        ] + batch@),
        batch@.len() > 0xffff ==> r is None,
{
    let n = batch.len();
    if n > 0xffff {
        return None;
    }
    let mut out: Vec<u8> = Vec::new();
    out.push((n / 256) as u8);
    out.push((n % 256) as u8);
    let mut i: usize = 0;
    while i < n
        invariant
            i <= n,
            n == batch@.len(),
            out@ == seq![(n / 256) as u8, (n % 256) as u8] + batch@.subrange(0, i as int),
        decreases n - i,
    {
        out.push(batch[i]);
        assert(batch@.subrange(0, i + 1) =~= batch@.subrange(0, i as int).push(batch@[i as int]));
        i = i + 1;
    }
    assert(batch@.subrange(0, i as int) =~= batch@);
    Some(out)
}

/// The length that a stream link's two-byte prefix gives.
pub fn stream_frame_len(hi: u8, lo: u8) -> (r: usize)
    ensures
        r == hi as nat * 256 + lo as nat,
{
    hi as usize * 256 + lo as usize
}

} // verus!
