//! A socket address of either family, and the conversion of values to
//! socket addresses.

use crate::ip::IpAddr;
use crate::ipv4::Ipv4Addr;
use crate::ipv6::Ipv6Addr;
use crate::socket4::{SocketAddrV4, SocketAddrV4View, SocketAddressV4};
use crate::socket6::{SocketAddrV6, SocketAddrV6View, SocketAddressV6};
use vstd::prelude::*;

verus! {

/// A socket address, either IPv4 or IPv6.
#[derive(Debug)]
pub enum SocketAddr<SA4: SocketAddressV4, SA6: SocketAddressV6> {
    /// An IPv4 socket address.
    V4(SocketAddrV4<SA4>),
    /// An IPv6 socket address.
    V6(SocketAddrV6<SA6>),
}

/// What a `SocketAddr` stands for.
pub enum SocketAddrView {
    V4(SocketAddrV4View),
    V6(SocketAddrV6View),
}

impl<SA4: SocketAddressV4, SA6: SocketAddressV6> Clone for SocketAddr<SA4, SA6> {
    fn clone(&self) -> (r: Self)
        ensures
            r == *self,
    {
        *self
    }
}

impl<SA4: SocketAddressV4, SA6: SocketAddressV6> Copy for SocketAddr<SA4, SA6> {

}

impl<SA4: SocketAddressV4, SA6: SocketAddressV6> View for SocketAddr<SA4, SA6> {
    type V = SocketAddrView;

    open spec fn view(&self) -> SocketAddrView {
        match self {
            SocketAddr::V4(a) => SocketAddrView::V4(a@),
            SocketAddr::V6(a) => SocketAddrView::V6(a@),
        }
    }
}

impl<SA4: SocketAddressV4, SA6: SocketAddressV6> SocketAddr<SA4, SA6> {
    /// The socket address that `new` returns for an address and a port: of
    /// the family of the address, and for an IPv6 address with the flow
    /// label and the scope identifier zero.
    pub open spec fn spec_new(ip: IpAddr<SA4::IpAddress, SA6::IpAddress>, port: u16) -> Self {
        match ip {
            IpAddr::V4(a) => SocketAddr::V4(SocketAddrV4::spec_new(a, port)),
            IpAddr::V6(a) => SocketAddr::V6(SocketAddrV6::spec_new(a, port, 0, 0)),
        }
    }

    /// The address of the socket address.
    pub open spec fn spec_ip(&self) -> IpAddr<SA4::IpAddress, SA6::IpAddress> {
        match self {
            SocketAddr::V4(a) => IpAddr::V4(a.spec_ip()),
            SocketAddr::V6(a) => IpAddr::V6(a.spec_ip()),
        }
    }

    /// The port of the socket address.
    pub open spec fn spec_port(&self) -> u16 {
        match self {
            SocketAddr::V4(a) => a.spec_port(),
            SocketAddr::V6(a) => a.spec_port(),
        }
    }

    /// A new socket address holds the address and the port that it was
    /// built from.
    pub proof fn lemma_new_parts(ip: IpAddr<SA4::IpAddress, SA6::IpAddress>, port: u16)
        ensures
            Self::spec_new(ip, port).spec_ip() == ip,
            Self::spec_new(ip, port).spec_port() == port,
    {
        match ip {
            IpAddr::V4(a) => SocketAddrV4::<SA4>::lemma_new_parts(a, port),
            IpAddr::V6(a) => SocketAddrV6::<SA6>::lemma_new_parts(a, port, 0, 0),
        }
    }

    /// Creates a socket address from an address and a port.
    pub fn new(ip: IpAddr<SA4::IpAddress, SA6::IpAddress>, port: u16) -> (r: SocketAddr<SA4, SA6>)
        ensures
            r == Self::spec_new(ip, port),
            r.spec_ip() == ip,
            r.spec_port() == port,
    {
        proof {
            Self::lemma_new_parts(ip, port);
        }
        match ip {
            IpAddr::V4(a) => SocketAddr::V4(SocketAddrV4::new(a, port)),
            IpAddr::V6(a) => SocketAddr::V6(SocketAddrV6::new(a, port, 0, 0)),
        }
    }

    /// Returns the address of the socket address.
    #[verifier::when_used_as_spec(spec_ip)]
    pub fn ip(&self) -> (r: IpAddr<SA4::IpAddress, SA6::IpAddress>)
        ensures
            r == self.spec_ip(),
    {
        match self {
            SocketAddr::V4(a) => IpAddr::V4(*a.ip()),
            SocketAddr::V6(a) => IpAddr::V6(*a.ip()),
        }
    }

    /// Replaces the address and keeps the port. Where the new address is of
    /// the family of the old one, the rest of the socket address is kept
    /// too; where it is of the other family, the socket address is built
    /// anew from the new address and the old port.
    pub fn set_ip(&mut self, new_ip: IpAddr<SA4::IpAddress, SA6::IpAddress>)
        ensures
            final(self).spec_ip() == new_ip,
            final(self).spec_port() == old(self).spec_port(),
            match (*old(self), *final(self)) {
                (SocketAddr::V4(_), SocketAddr::V4(_)) => true,
                (SocketAddr::V6(a), SocketAddr::V6(b)) => b.spec_flowinfo() == a.spec_flowinfo()
                    && b.spec_scope_id() == a.spec_scope_id(),
                _ => *final(self) == Self::spec_new(new_ip, old(self).spec_port()),
            },
    {
        let port = self.port();
        *self = match (*self, new_ip) {
            (SocketAddr::V4(a), IpAddr::V4(ip)) => {
                let mut a = a;
                a.set_ip(ip);
                SocketAddr::V4(a)
            },
            (SocketAddr::V6(a), IpAddr::V6(ip)) => {
                let mut a = a;
                a.set_ip(ip);
                SocketAddr::V6(a)
            },
            (_, ip) => Self::new(ip, port),
        };
    }

    /// Returns the port of the socket address.
    #[verifier::when_used_as_spec(spec_port)]
    pub fn port(&self) -> (r: u16)
        ensures
            r == self.spec_port(),
    {
        match self {
            SocketAddr::V4(a) => a.port(),
            SocketAddr::V6(a) => a.port(),
        }
    }

    /// Replaces the port and keeps the rest.
    pub fn set_port(&mut self, new_port: u16)
        ensures
            final(self).spec_port() == new_port,
            final(self).spec_ip() == old(self).spec_ip(),
            match (*old(self), *final(self)) {
                (SocketAddr::V4(_), SocketAddr::V4(_)) => true,
                (SocketAddr::V6(a), SocketAddr::V6(b)) => b.spec_flowinfo() == a.spec_flowinfo()
                    && b.spec_scope_id() == a.spec_scope_id(),
                _ => false,
            },
    {
        *self = match *self {
            SocketAddr::V4(a) => {
                let mut a = a;
                a.set_port(new_port);
                SocketAddr::V4(a)
            },
            SocketAddr::V6(a) => {
                let mut a = a;
                a.set_port(new_port);
                SocketAddr::V6(a)
            },
        };
    }

    /// Tells whether the socket address is an IPv4 socket address.
    pub fn is_ipv4(&self) -> (r: bool)
        ensures
            r == (self is V4),
    {
        match self {
            SocketAddr::V4(_) => true,
            SocketAddr::V6(_) => false,
        }
    }

    /// Tells whether the socket address is an IPv6 socket address.
    pub fn is_ipv6(&self) -> (r: bool)
        ensures
            r == (self is V6),
    {
        match self {
            SocketAddr::V4(_) => false,
            SocketAddr::V6(_) => true,
        }
    }

    /// The text of the socket address, by its family: `a.b.c.d:port` or
    /// `[address]:port`.
    pub open spec fn text(&self) -> Seq<char> {
        match self {
            SocketAddr::V4(a) => a.text(),
            SocketAddr::V6(a) => a.text(),
        }
    }

    /// Writes the socket address in the text of its family.
    pub fn to_string(&self) -> (r: String)
        ensures
            r@ == self.text(),
    {
        match self {
            SocketAddr::V4(a) => a.to_string(),
            SocketAddr::V6(a) => a.to_string(),
        }
    }
}

impl<SA4: SocketAddressV4, SA6: SocketAddressV6> PartialEq for SocketAddr<SA4, SA6> {
    /// Two socket addresses are equal when they are of one family and equal
    /// there.
    fn eq(&self, other: &SocketAddr<SA4, SA6>) -> (r: bool)
        ensures
            r == (self@ == other@),
    {
        match (self, other) {
            (SocketAddr::V4(s), SocketAddr::V4(o)) => s.eq(o),
            (SocketAddr::V6(s), SocketAddr::V6(o)) => s.eq(o),
            _ => false,
        }
    }
}

impl<SA4: SocketAddressV4, SA6: SocketAddressV6> vstd::std_specs::cmp::PartialEqSpecImpl for SocketAddr<SA4, SA6> {
    open spec fn obeys_eq_spec() -> bool {
        true
    }

    open spec fn eq_spec(&self, other: &SocketAddr<SA4, SA6>) -> bool {
        self@ == other@
    }
}

impl<SA4: SocketAddressV4, SA6: SocketAddressV6> Eq for SocketAddr<SA4, SA6> {

}

impl<SA4: SocketAddressV4, SA6: SocketAddressV6> core::hash::Hash for SocketAddr<SA4, SA6> {
    /// Feeds the number of the family, 4 or 6, and then the socket address
    /// to the hasher, so that equal socket addresses hash alike.
    fn hash<H: core::hash::Hasher>(&self, state: &mut H) {
        match self {
            SocketAddr::V4(a) => {
                let family: [u8; 1] = [4];
                family.hash(state);
                a.hash(state)
            },
            SocketAddr::V6(a) => {
                let family: [u8; 1] = [6];
                family.hash(state);
                a.hash(state)
            },
        }
    }
}

impl<SA4: SocketAddressV4, SA6: SocketAddressV6, I: Into<IpAddr<SA4::IpAddress, SA6::IpAddress>>> From<(I, u16)> for SocketAddr<SA4, SA6> {
    /// Creates a socket address from a value that converts to an address,
    /// and a port.
    fn from(pieces: (I, u16)) -> (r: SocketAddr<SA4, SA6>) {
        SocketAddr::new(pieces.0.into(), pieces.1)
    }
}

impl<SA4: SocketAddressV4, SA6: SocketAddressV6, I: Into<IpAddr<SA4::IpAddress, SA6::IpAddress>>> vstd::std_specs::convert::FromSpecImpl<(I, u16)> for SocketAddr<SA4, SA6> {
    open spec fn obeys_from_spec() -> bool {
        <I as vstd::std_specs::convert::IntoSpec<IpAddr<SA4::IpAddress, SA6::IpAddress>>>::obeys_into_spec()
    }

    open spec fn from_spec(pieces: (I, u16)) -> SocketAddr<SA4, SA6> {
        Self::spec_new(vstd::std_specs::convert::IntoSpec::into_spec(pieces.0), pieces.1)
    }
}

impl<SA4: SocketAddressV4, SA6: SocketAddressV6> From<SocketAddrV4<SA4>> for SocketAddr<SA4, SA6> {
    /// Wraps an IPv4 socket address.
    fn from(sock4: SocketAddrV4<SA4>) -> (r: SocketAddr<SA4, SA6>) {
        SocketAddr::V4(sock4)
    }
}

impl<SA4: SocketAddressV4, SA6: SocketAddressV6> vstd::std_specs::convert::FromSpecImpl<SocketAddrV4<SA4>> for SocketAddr<SA4, SA6> {
    open spec fn obeys_from_spec() -> bool {
        true
    }

    open spec fn from_spec(sock4: SocketAddrV4<SA4>) -> SocketAddr<SA4, SA6> {
        SocketAddr::V4(sock4)
    }
}

impl<SA4: SocketAddressV4, SA6: SocketAddressV6> From<SocketAddrV6<SA6>> for SocketAddr<SA4, SA6> {
    /// Wraps an IPv6 socket address.
    fn from(sock6: SocketAddrV6<SA6>) -> (r: SocketAddr<SA4, SA6>) {
        SocketAddr::V6(sock6)
    }
}

impl<SA4: SocketAddressV4, SA6: SocketAddressV6> vstd::std_specs::convert::FromSpecImpl<SocketAddrV6<SA6>> for SocketAddr<SA4, SA6> {
    open spec fn obeys_from_spec() -> bool {
        true
    }

    open spec fn from_spec(sock6: SocketAddrV6<SA6>) -> SocketAddr<SA4, SA6> {
        SocketAddr::V6(sock6)
    }
}

/// The error of a conversion to socket addresses. It has no value: a
/// conversion to socket addresses cannot fail.
#[derive(Debug)]
pub enum ToSocketAddrError {
    /// Holds a value of a type without values, so that there is none of
    /// this variant.
    Never(core::convert::Infallible),
}

/// A value that can be turned into socket addresses.
pub trait ToSocketAddrs<SA4: SocketAddressV4, SA6: SocketAddressV6> {
    /// The socket addresses that the value stands for, in their order.
    spec fn spec_socket_addrs(&self) -> Seq<SocketAddr<SA4, SA6>>;

    /// Turns the value into the socket addresses that it stands for.
    fn to_socket_addrs(&self) -> (r: Result<Vec<SocketAddr<SA4, SA6>>, ToSocketAddrError>)
        ensures
            r matches Ok(v) && v@ == self.spec_socket_addrs(),
    ;
}

impl<SA4: SocketAddressV4, SA6: SocketAddressV6> ToSocketAddrs<SA4, SA6> for SocketAddr<SA4, SA6> {
    /// A socket address stands for itself.
    open spec fn spec_socket_addrs(&self) -> Seq<SocketAddr<SA4, SA6>> {
        seq![*self]
    }

    fn to_socket_addrs(&self) -> (r: Result<Vec<SocketAddr<SA4, SA6>>, ToSocketAddrError>) {
        let mut v = Vec::new();
        v.push(*self);
        assert(v@ =~= seq![*self]);
        Ok(v)
    }
}

impl<SA4: SocketAddressV4, SA6: SocketAddressV6> ToSocketAddrs<SA4, SA6> for SocketAddrV4<SA4> {
    /// An IPv4 socket address stands for itself.
    open spec fn spec_socket_addrs(&self) -> Seq<SocketAddr<SA4, SA6>> {
        seq![SocketAddr::V4(*self)]
    }

    fn to_socket_addrs(&self) -> (r: Result<Vec<SocketAddr<SA4, SA6>>, ToSocketAddrError>) {
        SocketAddr::<SA4, SA6>::V4(*self).to_socket_addrs()
    }
}

impl<SA4: SocketAddressV4, SA6: SocketAddressV6> ToSocketAddrs<SA4, SA6> for SocketAddrV6<SA6> {
    /// An IPv6 socket address stands for itself.
    open spec fn spec_socket_addrs(&self) -> Seq<SocketAddr<SA4, SA6>> {
        seq![SocketAddr::V6(*self)]
    }

    fn to_socket_addrs(&self) -> (r: Result<Vec<SocketAddr<SA4, SA6>>, ToSocketAddrError>) {
        SocketAddr::<SA4, SA6>::V6(*self).to_socket_addrs()
    }
}

impl<SA4: SocketAddressV4, SA6: SocketAddressV6> ToSocketAddrs<SA4, SA6> for (
    IpAddr<SA4::IpAddress, SA6::IpAddress>,
    u16,
) {
    /// An address and a port stand for the socket address made of the two.
    open spec fn spec_socket_addrs(&self) -> Seq<SocketAddr<SA4, SA6>> {
        seq![SocketAddr::spec_new(self.0, self.1)]
    }

    fn to_socket_addrs(&self) -> (r: Result<Vec<SocketAddr<SA4, SA6>>, ToSocketAddrError>) {
        let (ip, port) = *self;
        SocketAddr::<SA4, SA6>::new(ip, port).to_socket_addrs()
    }
}

impl<SA4: SocketAddressV4, SA6: SocketAddressV6> ToSocketAddrs<SA4, SA6> for (
    Ipv4Addr<SA4::IpAddress>,
    u16,
) {
    /// An IPv4 address and a port stand for the IPv4 socket address made of
    /// the two.
    open spec fn spec_socket_addrs(&self) -> Seq<SocketAddr<SA4, SA6>> {
        seq![SocketAddr::V4(SocketAddrV4::spec_new(self.0, self.1))]
    }

    fn to_socket_addrs(&self) -> (r: Result<Vec<SocketAddr<SA4, SA6>>, ToSocketAddrError>) {
        let (ip, port) = *self;
        SocketAddr::<SA4, SA6>::V4(SocketAddrV4::<SA4>::new(ip, port)).to_socket_addrs()
    }
}

impl<SA4: SocketAddressV4, SA6: SocketAddressV6> ToSocketAddrs<SA4, SA6> for (
    Ipv6Addr<SA6::IpAddress>,
    u16,
) {
    /// An IPv6 address and a port stand for the IPv6 socket address made of
    /// the two, with the flow label and the scope identifier zero.
    open spec fn spec_socket_addrs(&self) -> Seq<SocketAddr<SA4, SA6>> {
        seq![SocketAddr::V6(SocketAddrV6::spec_new(self.0, self.1, 0, 0))]
    }

    fn to_socket_addrs(&self) -> (r: Result<Vec<SocketAddr<SA4, SA6>>, ToSocketAddrError>) {
        let (ip, port) = *self;
        SocketAddr::<SA4, SA6>::V6(SocketAddrV6::<SA6>::new(ip, port, 0, 0)).to_socket_addrs()
    }
}

} // verus!
