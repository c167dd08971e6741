//! IPv4 socket addresses: the backend contract and the address type.

use crate::ipv4::{Ipv4Addr, Ipv4Address};
use crate::text::{ipv4_text, port_suffix, push_port};
use vstd::prelude::*;

verus! {

/// What a storage backend must offer to stand for an IPv4 socket address:
/// an IPv4 address and a port, each of which can be read and replaced
/// without touching the other.
pub trait SocketAddressV4: Clone + Copy {
    /// The backend of the IPv4 address that the socket address holds.
    type IpAddress: Ipv4Address;

    /// The IPv4 address that this value holds.
    spec fn spec_ip(&self) -> Ipv4Addr<Self::IpAddress>;

    /// The port that this value holds.
    spec fn spec_port(&self) -> u16;

    /// The value that `new` returns for an address and a port.
    spec fn spec_new(ip: Ipv4Addr<Self::IpAddress>, port: u16) -> Self;

    /// A new value holds the address and the port that it was built from.
    proof fn lemma_new_parts(ip: Ipv4Addr<Self::IpAddress>, port: u16)
        ensures
            Self::spec_new(ip, port).spec_ip() == ip,
            Self::spec_new(ip, port).spec_port() == port,
    ;

    /// Builds the value that holds `ip` and `port`.
    fn new(ip: Ipv4Addr<Self::IpAddress>, port: u16) -> (r: Self)
        ensures
            r == Self::spec_new(ip, port),
    ;

    /// Returns the IPv4 address.
    fn ip(&self) -> (r: &Ipv4Addr<Self::IpAddress>)
        ensures
            *r == self.spec_ip(),
    ;

    /// Replaces the IPv4 address and keeps the port.
    fn set_ip(&mut self, ip: Ipv4Addr<Self::IpAddress>)
        ensures
            final(self).spec_ip() == ip,
            final(self).spec_port() == old(self).spec_port(),
    ;

    /// Returns the port.
    fn port(&self) -> (r: u16)
        ensures
            r == self.spec_port(),
    ;

    /// Replaces the port and keeps the IPv4 address.
    fn set_port(&mut self, port: u16)
        ensures
            final(self).spec_port() == port,
            final(self).spec_ip() == old(self).spec_ip(),
    ;
}

/// An IPv4 socket address over the backend `SA4`: an IPv4 address and a port.
#[derive(Debug)]
pub struct SocketAddrV4<SA4: SocketAddressV4> {
    pub inner: SA4,
}

/// What a `SocketAddrV4` stands for: the octets of its address, and its port.
pub struct SocketAddrV4View {
    pub ip: Seq<u8>,
    pub port: u16,
}

impl<SA4: SocketAddressV4> Clone for SocketAddrV4<SA4> {
    fn clone(&self) -> (r: Self)
        ensures
            r == *self,
    {
        *self
    }
}

impl<SA4: SocketAddressV4> Copy for SocketAddrV4<SA4> {

}

impl<SA4: SocketAddressV4> View for SocketAddrV4<SA4> {
    type V = SocketAddrV4View;

    open spec fn view(&self) -> SocketAddrV4View {
        SocketAddrV4View { ip: self.spec_ip()@, port: self.spec_port() }
    }
}

impl<SA4: SocketAddressV4> SocketAddrV4<SA4> {
    /// The socket address that `new` returns for an address and a port.
    pub open spec fn spec_new(ip: Ipv4Addr<SA4::IpAddress>, port: u16) -> Self {
        SocketAddrV4 { inner: SA4::spec_new(ip, port) }
    }

    /// The IPv4 address of the socket address.
    pub open spec fn spec_ip(&self) -> Ipv4Addr<SA4::IpAddress> {
        self.inner.spec_ip()
    }

    /// The port of the socket address.
    pub open spec fn spec_port(&self) -> u16 {
        self.inner.spec_port()
    }

    /// A new socket address holds the address and the port that it was
    /// built from.
    pub proof fn lemma_new_parts(ip: Ipv4Addr<SA4::IpAddress>, port: u16)
        ensures
            Self::spec_new(ip, port).spec_ip() == ip,
            Self::spec_new(ip, port).spec_port() == port,
    {
        SA4::lemma_new_parts(ip, port);
    }

    /// Creates a socket address from an IPv4 address and a port.
    pub fn new(ip: Ipv4Addr<SA4::IpAddress>, port: u16) -> (r: SocketAddrV4<SA4>)
        ensures
            r == Self::spec_new(ip, port),
            r.spec_ip() == ip,
            r.spec_port() == port,
    {
        proof {
            Self::lemma_new_parts(ip, port);
        }
        SocketAddrV4 { inner: SA4::new(ip, port) }
    }

    /// Returns the IPv4 address of the socket address.
    pub fn ip(&self) -> (r: &Ipv4Addr<SA4::IpAddress>)
        ensures
            *r == self.spec_ip(),
    {
        self.inner.ip()
    }

    /// Replaces the IPv4 address and keeps the port.
    pub fn set_ip(&mut self, new_ip: Ipv4Addr<SA4::IpAddress>)
        ensures
            final(self).spec_ip() == new_ip,
            final(self).spec_port() == old(self).spec_port(),
    {
        self.inner.set_ip(new_ip)
    }

    /// Returns the port of the socket address.
    #[verifier::when_used_as_spec(spec_port)]
    pub fn port(&self) -> (r: u16)
        ensures
            r == self.spec_port(),
    {
        self.inner.port()
    }

    /// Replaces the port and keeps the IPv4 address.
    pub fn set_port(&mut self, new_port: u16)
        ensures
            final(self).spec_port() == new_port,
            final(self).spec_ip() == old(self).spec_ip(),
    {
        self.inner.set_port(new_port)
    }

    /// The text of the socket address: the address, a colon and the port.
    pub open spec fn text(&self) -> Seq<char> {
        ipv4_text(self.spec_ip()@) + port_suffix(self.spec_port())
    }

    /// Writes the socket address as `a.b.c.d:port`.
    pub fn to_string(&self) -> (r: String)
        ensures
            r@ == self.text(),
    {
        let mut out = self.ip().to_string();
        push_port(&mut out, self.port());
        out
    }
}

impl<SA4: SocketAddressV4> PartialEq for SocketAddrV4<SA4> {
    /// Two socket addresses are equal when their addresses are equal and
    /// their ports are.
    fn eq(&self, other: &SocketAddrV4<SA4>) -> (r: bool)
        ensures
            r == (self@ == other@),
    {
        let s_ip = self.ip();
        let o_ip = other.ip();
        let s_port = self.port();
        let o_port = other.port();
        s_ip.eq(o_ip) && s_port == o_port
    }
}

impl<SA4: SocketAddressV4> vstd::std_specs::cmp::PartialEqSpecImpl for SocketAddrV4<SA4> {
    open spec fn obeys_eq_spec() -> bool {
        true
    }

    open spec fn eq_spec(&self, other: &SocketAddrV4<SA4>) -> bool {
        self@ == other@
    }
}

impl<SA4: SocketAddressV4> Eq for SocketAddrV4<SA4> {

}

impl<SA4: SocketAddressV4> core::hash::Hash for SocketAddrV4<SA4> {
    /// Feeds the octets of the address and the port to the hasher, so that
    /// equal socket addresses hash alike.
    fn hash<H: core::hash::Hasher>(&self, state: &mut H) {
        let port: [u16; 1] = [self.port()];
        self.ip().hash(state);
        port.hash(state)
    }
}

} // verus!
