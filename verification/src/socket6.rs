//! IPv6 socket addresses: the backend contract and the address type.

use crate::ipv6::{Ipv6Addr, Ipv6Address};
use crate::text::{ipv6_text, port_suffix, push_port};
use vstd::prelude::*;

verus! {

/// What a storage backend must offer to stand for an IPv6 socket address:
/// an IPv6 address, a port, a flow label and a scope identifier, each of
/// which can be read and replaced without touching the others.
pub trait SocketAddressV6: Clone + Copy {
    /// The backend of the IPv6 address that the socket address holds.
    type IpAddress: Ipv6Address;

    /// The IPv6 address that this value holds.
    spec fn spec_ip(&self) -> Ipv6Addr<Self::IpAddress>;

    /// The port that this value holds.
    spec fn spec_port(&self) -> u16;

    /// The flow label that this value holds.
    spec fn spec_flowinfo(&self) -> u32;

    /// The scope identifier that this value holds.
    spec fn spec_scope_id(&self) -> u32;

    /// The value that `new` returns for its four arguments.
    spec fn spec_new(
        ip: Ipv6Addr<Self::IpAddress>,
        port: u16,
        flowinfo: u32,
        scope_id: u32,
    ) -> Self;

    /// A new value holds the four parts that it was built from.
    proof fn lemma_new_parts(
        ip: Ipv6Addr<Self::IpAddress>,
        port: u16,
        flowinfo: u32,
        scope_id: u32,
    )
        ensures
            Self::spec_new(ip, port, flowinfo, scope_id).spec_ip() == ip,
            Self::spec_new(ip, port, flowinfo, scope_id).spec_port() == port,
            Self::spec_new(ip, port, flowinfo, scope_id).spec_flowinfo() == flowinfo,
            Self::spec_new(ip, port, flowinfo, scope_id).spec_scope_id() == scope_id,
    ;

    /// Builds the value that holds the four parts.
    fn new(ip: Ipv6Addr<Self::IpAddress>, port: u16, flowinfo: u32, scope_id: u32) -> (r: Self)
        ensures
            r == Self::spec_new(ip, port, flowinfo, scope_id),
    ;

    /// Returns the IPv6 address.
    fn ip(&self) -> (r: &Ipv6Addr<Self::IpAddress>)
        ensures
            *r == self.spec_ip(),
    ;

    /// Replaces the IPv6 address and keeps the rest.
    fn set_ip(&mut self, ip: Ipv6Addr<Self::IpAddress>)
        ensures
            final(self).spec_ip() == ip,
            final(self).spec_port() == old(self).spec_port(),
            final(self).spec_flowinfo() == old(self).spec_flowinfo(),
            final(self).spec_scope_id() == old(self).spec_scope_id(),
    ;

    /// Returns the port.
    fn port(&self) -> (r: u16)
        ensures
            r == self.spec_port(),
    ;

    /// Replaces the port and keeps the rest.
    fn set_port(&mut self, port: u16)
        ensures
            final(self).spec_ip() == old(self).spec_ip(),
            final(self).spec_port() == port,
            final(self).spec_flowinfo() == old(self).spec_flowinfo(),
            final(self).spec_scope_id() == old(self).spec_scope_id(),
    ;

    /// Replaces the flow label and keeps the rest.
    fn set_flowinfo(&mut self, new_flowinfo: u32)
        ensures
            final(self).spec_ip() == old(self).spec_ip(),
            final(self).spec_port() == old(self).spec_port(),
            final(self).spec_flowinfo() == new_flowinfo,
            final(self).spec_scope_id() == old(self).spec_scope_id(),
    ;

    /// Returns the flow label.
    fn flowinfo(&self) -> (r: u32)
        ensures
            r == self.spec_flowinfo(),
    ;

    /// Replaces the scope identifier and keeps the rest.
    fn set_scope_id(&mut self, new_scope_id: u32)
        ensures
            final(self).spec_ip() == old(self).spec_ip(),
            final(self).spec_port() == old(self).spec_port(),
            final(self).spec_flowinfo() == old(self).spec_flowinfo(),
            final(self).spec_scope_id() == new_scope_id,
    ;

    /// Returns the scope identifier.
    fn scope_id(&self) -> (r: u32)
        ensures
            r == self.spec_scope_id(),
    ;
}

/// An IPv6 socket address over the backend `SA6`: an IPv6 address, a port,
/// a flow label and a scope identifier.
#[derive(Debug)]
pub struct SocketAddrV6<SA6: SocketAddressV6> {
    inner: SA6,
}

/// What a `SocketAddrV6` stands for: the segments of its address, its port,
/// its flow label and its scope identifier.
pub struct SocketAddrV6View {
    pub ip: Seq<u16>,
    pub port: u16,
    pub flowinfo: u32,
    pub scope_id: u32,
}

impl<SA6: SocketAddressV6> Clone for SocketAddrV6<SA6> {
    fn clone(&self) -> (r: Self)
        ensures
            r == *self,
    {
        *self
    }
}

impl<SA6: SocketAddressV6> Copy for SocketAddrV6<SA6> {

}

impl<SA6: SocketAddressV6> View for SocketAddrV6<SA6> {
    type V = SocketAddrV6View;

    open spec fn view(&self) -> SocketAddrV6View {
        SocketAddrV6View {
            ip: self.spec_ip()@,
            port: self.spec_port(),
            flowinfo: self.spec_flowinfo(),
            scope_id: self.spec_scope_id(),
        }
    }
}

impl<SA6: SocketAddressV6> SocketAddrV6<SA6> {
    /// The socket address that `new` returns for its four arguments.
    pub closed spec fn spec_new(
        ip: Ipv6Addr<SA6::IpAddress>,
        port: u16,
        flowinfo: u32,
        scope_id: u32,
    ) -> Self {
        SocketAddrV6 { inner: SA6::spec_new(ip, port, flowinfo, scope_id) }
    }

    /// The IPv6 address of the socket address.
    pub closed spec fn spec_ip(&self) -> Ipv6Addr<SA6::IpAddress> {
        self.inner.spec_ip()
    }

    /// The port of the socket address.
    pub closed spec fn spec_port(&self) -> u16 {
        self.inner.spec_port()
    }

    /// The flow label of the socket address.
    pub closed spec fn spec_flowinfo(&self) -> u32 {
        self.inner.spec_flowinfo()
    }

    /// The scope identifier of the socket address.
    pub closed spec fn spec_scope_id(&self) -> u32 {
        self.inner.spec_scope_id()
    }

    /// A new socket address holds the four parts that it was built from.
    pub proof fn lemma_new_parts(
        ip: Ipv6Addr<SA6::IpAddress>,
        port: u16,
        flowinfo: u32,
        scope_id: u32,
    )
        ensures
            Self::spec_new(ip, port, flowinfo, scope_id).spec_ip() == ip,
            Self::spec_new(ip, port, flowinfo, scope_id).spec_port() == port,
            Self::spec_new(ip, port, flowinfo, scope_id).spec_flowinfo() == flowinfo,
            Self::spec_new(ip, port, flowinfo, scope_id).spec_scope_id() == scope_id,
    {
        SA6::lemma_new_parts(ip, port, flowinfo, scope_id);
    }

    /// Creates a socket address from an IPv6 address, a port, a flow label
    /// and a scope identifier. Any value of each is accepted.
    pub fn new(ip: Ipv6Addr<SA6::IpAddress>, port: u16, flowinfo: u32, scope_id: u32) -> (r:
        SocketAddrV6<SA6>)
        ensures
            r == Self::spec_new(ip, port, flowinfo, scope_id),
            r.spec_ip() == ip,
            r.spec_port() == port,
            r.spec_flowinfo() == flowinfo,
            r.spec_scope_id() == scope_id,
    {
        proof {
            Self::lemma_new_parts(ip, port, flowinfo, scope_id);
        }
        SocketAddrV6 { inner: SA6::new(ip, port, flowinfo, scope_id) }
    }

    /// Returns the IPv6 address of the socket address.
    pub fn ip(&self) -> (r: &Ipv6Addr<SA6::IpAddress>)
        ensures
            *r == self.spec_ip(),
    {
        self.inner.ip()
    }

    /// Replaces the IPv6 address and keeps the rest.
    pub fn set_ip(&mut self, new_ip: Ipv6Addr<SA6::IpAddress>)
        ensures
            final(self).spec_ip() == new_ip,
            final(self).spec_port() == old(self).spec_port(),
            final(self).spec_flowinfo() == old(self).spec_flowinfo(),
            final(self).spec_scope_id() == old(self).spec_scope_id(),
    {
        self.inner.set_ip(new_ip)
    }

    /// Returns the port of the socket address.
    #[verifier::when_used_as_spec(spec_port)]
    pub fn port(&self) -> (r: u16)
        ensures
            r == self.spec_port(),
    {
        self.inner.port()
    }

    /// Replaces the port and keeps the rest.
    pub fn set_port(&mut self, new_port: u16)
        ensures
            final(self).spec_ip() == old(self).spec_ip(),
            final(self).spec_port() == new_port,
            final(self).spec_flowinfo() == old(self).spec_flowinfo(),
            final(self).spec_scope_id() == old(self).spec_scope_id(),
    {
        self.inner.set_port(new_port)
    }

    /// Returns the flow label of the socket address.
    #[verifier::when_used_as_spec(spec_flowinfo)]
    pub fn flowinfo(&self) -> (r: u32)
        ensures
            r == self.spec_flowinfo(),
    {
        self.inner.flowinfo()
    }

    /// Replaces the flow label and keeps the rest.
    pub fn set_flowinfo(&mut self, new_flowinfo: u32)
        ensures
            final(self).spec_ip() == old(self).spec_ip(),
            final(self).spec_port() == old(self).spec_port(),
            final(self).spec_flowinfo() == new_flowinfo,
            final(self).spec_scope_id() == old(self).spec_scope_id(),
    {
        self.inner.set_flowinfo(new_flowinfo)
    }

    /// Returns the scope identifier of the socket address.
    #[verifier::when_used_as_spec(spec_scope_id)]
    pub fn scope_id(&self) -> (r: u32)
        ensures
            r == self.spec_scope_id(),
    {
        self.inner.scope_id()
    }

    /// Replaces the scope identifier and keeps the rest.
    pub fn set_scope_id(&mut self, new_scope_id: u32)
        ensures
            final(self).spec_ip() == old(self).spec_ip(),
            final(self).spec_port() == old(self).spec_port(),
            final(self).spec_flowinfo() == old(self).spec_flowinfo(),
            final(self).spec_scope_id() == new_scope_id,
    {
        self.inner.set_scope_id(new_scope_id)
    }

    /// The text of the socket address: the address in square brackets, a
    /// colon and the port.
    pub open spec fn text(&self) -> Seq<char> {
        seq!['['] + ipv6_text(self.spec_ip()@) + seq![']'] + port_suffix(self.spec_port())
    }

    /// Writes the socket address as `[address]:port`.
    pub fn to_string(&self) -> (r: String)
        ensures
            r@ == self.text(),
    {
        proof {
            reveal_strlit("[");
            reveal_strlit("]");
        }
        let mut out = String::new();
        out.append("[");
        let ip = self.ip().to_string();
        out.append(ip.as_str());
        out.append("]");
        push_port(&mut out, self.port());
        assert(out@ =~= self.text());
        out
    }
}

impl<SA6: SocketAddressV6> PartialEq for SocketAddrV6<SA6> {
    /// Two socket addresses are equal when their addresses, their ports,
    /// their flow labels and their scope identifiers are.
    fn eq(&self, other: &SocketAddrV6<SA6>) -> (r: bool)
        ensures
            r == (self@ == other@),
    {
        let s_ip = self.ip();
        let o_ip = other.ip();
        let s_port = self.port();
        let o_port = other.port();
        let s_flowinfo = self.flowinfo();
        let o_flowinfo = other.flowinfo();
        let s_scope_id = self.scope_id();
        let o_scope_id = other.scope_id();
        s_ip.eq(o_ip) && s_port == o_port && s_flowinfo == o_flowinfo && s_scope_id == o_scope_id
    }
}

impl<SA6: SocketAddressV6> vstd::std_specs::cmp::PartialEqSpecImpl for SocketAddrV6<SA6> {
    open spec fn obeys_eq_spec() -> bool {
        true
    }

    open spec fn eq_spec(&self, other: &SocketAddrV6<SA6>) -> bool {
        self@ == other@
    }
}

impl<SA6: SocketAddressV6> Eq for SocketAddrV6<SA6> {

}

impl<SA6: SocketAddressV6> core::hash::Hash for SocketAddrV6<SA6> {
    /// Feeds the segments of the address, the port, the flow label and the
    /// scope identifier to the hasher, so that equal socket addresses hash
    /// alike.
    fn hash<H: core::hash::Hasher>(&self, state: &mut H) {
        let port: [u16; 1] = [self.port()];
        let rest: [u32; 2] = [self.flowinfo(), self.scope_id()];
        self.ip().hash(state);
        port.hash(state);
        rest.hash(state)
    }
}

} // verus!
