//! An address of either family.

use crate::ipv4::{Ipv4Addr, Ipv4Address};
use crate::ipv6::{Ipv6Addr, Ipv6Address};
use crate::text::{ipv4_text, ipv6_text};
use core::cmp::Ordering;
use vstd::prelude::*;

verus! {

/// An IP address, either IPv4 or IPv6.
///
/// Every IPv4 address is ordered before every IPv6 address, whatever the
/// two hold; no IPv4 address is equal to an IPv6 address.
#[derive(Debug)]
pub enum IpAddr<IV4: Ipv4Address, IV6: Ipv6Address> {
    /// An IPv4 address.
    V4(Ipv4Addr<IV4>),
    /// An IPv6 address.
    V6(Ipv6Addr<IV6>),
}

/// What an `IpAddr` stands for: the octets of an IPv4 address or the
/// segments of an IPv6 address.
pub enum IpAddrView {
    V4(Seq<u8>),
    V6(Seq<u16>),
}

impl<IV4: Ipv4Address, IV6: Ipv6Address> Clone for IpAddr<IV4, IV6> {
    fn clone(&self) -> (r: Self)
        ensures
            r == *self,
    {
        *self
    }
}

impl<IV4: Ipv4Address, IV6: Ipv6Address> Copy for IpAddr<IV4, IV6> {

}

impl<IV4: Ipv4Address, IV6: Ipv6Address> View for IpAddr<IV4, IV6> {
    type V = IpAddrView;

    open spec fn view(&self) -> IpAddrView {
        match self {
            IpAddr::V4(ip) => IpAddrView::V4(ip@),
            IpAddr::V6(ip) => IpAddrView::V6(ip@),
        }
    }
}

impl<IV4: Ipv4Address, IV6: Ipv6Address> IpAddr<IV4, IV6> {
    /// Whether the address is the unspecified address of its family.
    pub open spec fn spec_is_unspecified(&self) -> bool {
        match self {
            IpAddr::V4(ip) => ip.spec_is_unspecified(),
            IpAddr::V6(ip) => ip.spec_is_unspecified(),
        }
    }

    /// Tells whether the address is the unspecified address of its family.
    #[verifier::when_used_as_spec(spec_is_unspecified)]
    pub fn is_unspecified(&self) -> (r: bool)
        ensures
            r == self.spec_is_unspecified(),
    {
        match self {
            IpAddr::V4(ip) => ip.is_unspecified(),
            IpAddr::V6(ip) => ip.is_unspecified(),
        }
    }

    /// Whether the address is a loopback address of its family.
    pub open spec fn spec_is_loopback(&self) -> bool {
        match self {
            IpAddr::V4(ip) => ip.spec_is_loopback(),
            IpAddr::V6(ip) => ip.spec_is_loopback(),
        }
    }

    /// Tells whether the address is a loopback address of its family.
    #[verifier::when_used_as_spec(spec_is_loopback)]
    pub fn is_loopback(&self) -> (r: bool)
        ensures
            r == self.spec_is_loopback(),
    {
        match self {
            IpAddr::V4(ip) => ip.is_loopback(),
            IpAddr::V6(ip) => ip.is_loopback(),
        }
    }

    /// Whether the address is global by the rule of its family.
    pub open spec fn spec_is_global(&self) -> bool {
        match self {
            IpAddr::V4(ip) => ip.spec_is_global(),
            IpAddr::V6(ip) => ip.spec_is_global(),
        }
    }

    /// Tells whether the address appears to be globally routable.
    #[verifier::when_used_as_spec(spec_is_global)]
    pub fn is_global(&self) -> (r: bool)
        ensures
            r == self.spec_is_global(),
    {
        match self {
            IpAddr::V4(ip) => ip.is_global(),
            IpAddr::V6(ip) => ip.is_global(),
        }
    }

    /// Whether the address is a multicast address of its family.
    pub open spec fn spec_is_multicast(&self) -> bool {
        match self {
            IpAddr::V4(ip) => ip.spec_is_multicast(),
            IpAddr::V6(ip) => ip.spec_is_multicast(),
        }
    }

    /// Tells whether the address is a multicast address.
    #[verifier::when_used_as_spec(spec_is_multicast)]
    pub fn is_multicast(&self) -> (r: bool)
        ensures
            r == self.spec_is_multicast(),
    {
        match self {
            IpAddr::V4(ip) => ip.is_multicast(),
            IpAddr::V6(ip) => ip.is_multicast(),
        }
    }

    /// Whether the address lies in a range that its family keeps for
    /// documentation.
    pub open spec fn spec_is_documentation(&self) -> bool {
        match self {
            IpAddr::V4(ip) => ip.spec_is_documentation(),
            IpAddr::V6(ip) => ip.spec_is_documentation(),
        }
    }

    /// Tells whether the address lies in a range kept for documentation.
    #[verifier::when_used_as_spec(spec_is_documentation)]
    pub fn is_documentation(&self) -> (r: bool)
        ensures
            r == self.spec_is_documentation(),
    {
        match self {
            IpAddr::V4(ip) => ip.is_documentation(),
            IpAddr::V6(ip) => ip.is_documentation(),
        }
    }

    /// Tells whether the address is an IPv4 address.
    pub fn is_ipv4(&self) -> (r: bool)
        ensures
            r == (self is V4),
    {
        match self {
            IpAddr::V4(_) => true,
            IpAddr::V6(_) => false,
        }
    }

    /// Tells whether the address is an IPv6 address.
    pub fn is_ipv6(&self) -> (r: bool)
        ensures
            r == (self is V6),
    {
        match self {
            IpAddr::V4(_) => false,
            IpAddr::V6(_) => true,
        }
    }

    /// The canonical text of the address, by its family.
    pub open spec fn text(&self) -> Seq<char> {
        match self {
            IpAddr::V4(ip) => ipv4_text(ip@),
            IpAddr::V6(ip) => ipv6_text(ip@),
        }
    }

    /// Writes the address in the canonical text of its family.
    pub fn to_string(&self) -> (r: String)
        ensures
            r@ == self.text(),
    {
        match self {
            IpAddr::V4(ip) => ip.to_string(),
            IpAddr::V6(ip) => ip.to_string(),
        }
    }

    /// Whether the address comes before `other`: within one family by the
    /// order of that family, and an IPv4 address before an IPv6 address.
    pub open spec fn spec_lt(&self, other: &Self) -> bool {
        match (self, other) {
            (IpAddr::V4(a), IpAddr::V4(b)) => a.spec_lt(b),
            (IpAddr::V4(_), IpAddr::V6(_)) => true,
            (IpAddr::V6(_), IpAddr::V4(_)) => false,
            (IpAddr::V6(a), IpAddr::V6(b)) => a.spec_lt(b),
        }
    }

    /// An IPv4 address comes before every IPv6 address and is equal to none,
    /// whatever the two addresses hold.
    pub proof fn lemma_v4_before_v6(a: Ipv4Addr<IV4>, b: Ipv6Addr<IV6>)
        ensures
            IpAddr::V4(a).spec_lt(&IpAddr::V6(b)),
            !IpAddr::V6(b).spec_lt(&IpAddr::V4(a)),
            IpAddr::<IV4, IV6>::V4(a)@ != IpAddr::<IV4, IV6>::V6(b)@,
            vstd::std_specs::cmp::PartialOrdSpec::partial_cmp_spec(
                &IpAddr::V4(a),
                &IpAddr::V6(b),
            ) == Some(Ordering::Less),
            vstd::std_specs::cmp::PartialOrdSpec::partial_cmp_spec(
                &IpAddr::V6(b),
                &IpAddr::V4(a),
            ) == Some(Ordering::Greater),
    {
    }
}

impl<IV4: Ipv4Address, IV6: Ipv6Address> PartialEq for IpAddr<IV4, IV6> {
    /// Two addresses are equal when they are of one family and equal there.
    fn eq(&self, other: &IpAddr<IV4, IV6>) -> (r: bool)
        ensures
            r == (self@ == other@),
    {
        match (self, other) {
            (IpAddr::V4(a), IpAddr::V4(b)) => a.eq(b),
            (IpAddr::V6(a), IpAddr::V6(b)) => a.eq(b),
            _ => false,
        }
    }
}

impl<IV4: Ipv4Address, IV6: Ipv6Address> vstd::std_specs::cmp::PartialEqSpecImpl for IpAddr<IV4, IV6> {
    open spec fn obeys_eq_spec() -> bool {
        true
    }

    open spec fn eq_spec(&self, other: &IpAddr<IV4, IV6>) -> bool {
        self@ == other@
    }
}

impl<IV4: Ipv4Address, IV6: Ipv6Address> Eq for IpAddr<IV4, IV6> {

}

impl<IV4: Ipv4Address, IV6: Ipv6Address> core::hash::Hash for IpAddr<IV4, IV6> {
    /// Feeds the number of the family, 4 or 6, and then the address to the
    /// hasher, so that equal addresses hash alike.
    fn hash<H: core::hash::Hasher>(&self, state: &mut H) {
        match self {
            IpAddr::V4(ip) => {
                let family: [u8; 1] = [4];
                family.hash(state);
                ip.hash(state)
            },
            IpAddr::V6(ip) => {
                let family: [u8; 1] = [6];
                family.hash(state);
                ip.hash(state)
            },
        }
    }
}

impl<IV4: Ipv4Address, IV6: Ipv6Address> PartialOrd for IpAddr<IV4, IV6> {
    /// Orders addresses of one family by the order of that family, and an
    /// IPv4 address before an IPv6 address.
    fn partial_cmp(&self, other: &IpAddr<IV4, IV6>) -> (r: Option<Ordering>) {
        match (self, other) {
            (IpAddr::V4(a), IpAddr::V4(b)) => a.partial_cmp(b),
            (IpAddr::V4(_), IpAddr::V6(_)) => Some(Ordering::Less),
            (IpAddr::V6(_), IpAddr::V4(_)) => Some(Ordering::Greater),
            (IpAddr::V6(a), IpAddr::V6(b)) => a.partial_cmp(b),
        }
    }
}

impl<IV4: Ipv4Address, IV6: Ipv6Address> vstd::std_specs::cmp::PartialOrdSpecImpl for IpAddr<IV4, IV6> {
    open spec fn obeys_partial_cmp_spec() -> bool {
        true
    }

    open spec fn partial_cmp_spec(&self, other: &IpAddr<IV4, IV6>) -> Option<Ordering> {
        if self@ == other@ {
            Some(Ordering::Equal)
        } else if self.spec_lt(other) {
            Some(Ordering::Less)
        } else {
            Some(Ordering::Greater)
        }
    }
}

impl<IV4: Ipv4Address, IV6: Ipv6Address> From<Ipv4Addr<IV4>> for IpAddr<IV4, IV6> {
    /// Wraps an IPv4 address.
    fn from(ipv4: Ipv4Addr<IV4>) -> (r: IpAddr<IV4, IV6>) {
        IpAddr::V4(ipv4)
    }
}

impl<IV4: Ipv4Address, IV6: Ipv6Address> vstd::std_specs::convert::FromSpecImpl<Ipv4Addr<IV4>> for IpAddr<IV4, IV6> {
    open spec fn obeys_from_spec() -> bool {
        true
    }

    open spec fn from_spec(ipv4: Ipv4Addr<IV4>) -> IpAddr<IV4, IV6> {
        IpAddr::V4(ipv4)
    }
}

impl<IV4: Ipv4Address, IV6: Ipv6Address> From<Ipv6Addr<IV6>> for IpAddr<IV4, IV6> {
    /// Wraps an IPv6 address.
    fn from(ipv6: Ipv6Addr<IV6>) -> (r: IpAddr<IV4, IV6>) {
        IpAddr::V6(ipv6)
    }
}

impl<IV4: Ipv4Address, IV6: Ipv6Address> vstd::std_specs::convert::FromSpecImpl<Ipv6Addr<IV6>> for IpAddr<IV4, IV6> {
    open spec fn obeys_from_spec() -> bool {
        true
    }

    open spec fn from_spec(ipv6: Ipv6Addr<IV6>) -> IpAddr<IV4, IV6> {
        IpAddr::V6(ipv6)
    }
}

impl<IV4: Ipv4Address, IV6: Ipv6Address> PartialEq<Ipv4Addr<IV4>> for IpAddr<IV4, IV6> {
    /// An address of either family is equal to an IPv4 address when it is
    /// an IPv4 address with the same octets.
    fn eq(&self, other: &Ipv4Addr<IV4>) -> (r: bool)
        ensures
            r == (self@ == IpAddrView::V4(other@)),
    {
        match self {
            IpAddr::V4(v4) => v4.eq(other),
            IpAddr::V6(_) => false,
        }
    }
}

impl<IV4: Ipv4Address, IV6: Ipv6Address> vstd::std_specs::cmp::PartialEqSpecImpl<Ipv4Addr<IV4>> for IpAddr<IV4, IV6> {
    open spec fn obeys_eq_spec() -> bool {
        true
    }

    open spec fn eq_spec(&self, other: &Ipv4Addr<IV4>) -> bool {
        self@ == IpAddrView::V4(other@)
    }
}

impl<IV4: Ipv4Address, IV6: Ipv6Address> PartialEq<IpAddr<IV4, IV6>> for Ipv4Addr<IV4> {
    /// An IPv4 address is equal to an address of either family when that is
    /// an IPv4 address with the same octets.
    fn eq(&self, other: &IpAddr<IV4, IV6>) -> (r: bool)
        ensures
            r == (IpAddrView::V4(self@) == other@),
    {
        match other {
            IpAddr::V4(v4) => self.eq(v4),
            IpAddr::V6(_) => false,
        }
    }
}

impl<IV4: Ipv4Address, IV6: Ipv6Address> vstd::std_specs::cmp::PartialEqSpecImpl<IpAddr<IV4, IV6>> for Ipv4Addr<IV4> {
    open spec fn obeys_eq_spec() -> bool {
        true
    }

    open spec fn eq_spec(&self, other: &IpAddr<IV4, IV6>) -> bool {
        IpAddrView::V4(self@) == other@
    }
}

impl<IV4: Ipv4Address, IV6: Ipv6Address> PartialOrd<Ipv4Addr<IV4>> for IpAddr<IV4, IV6> {
    /// An IPv6 address comes after every IPv4 address.
    fn partial_cmp(&self, other: &Ipv4Addr<IV4>) -> (r: Option<Ordering>) {
        match self {
            IpAddr::V4(v4) => v4.partial_cmp(other),
            IpAddr::V6(_) => Some(Ordering::Greater),
        }
    }
}

impl<IV4: Ipv4Address, IV6: Ipv6Address> vstd::std_specs::cmp::PartialOrdSpecImpl<Ipv4Addr<IV4>> for IpAddr<IV4, IV6> {
    open spec fn obeys_partial_cmp_spec() -> bool {
        true
    }

    open spec fn partial_cmp_spec(&self, other: &Ipv4Addr<IV4>) -> Option<Ordering> {
        if self@ == IpAddrView::V4(other@) {
            Some(Ordering::Equal)
        } else if self.spec_lt(&IpAddr::V4(*other)) {
            Some(Ordering::Less)
        } else {
            Some(Ordering::Greater)
        }
    }
}

impl<IV4: Ipv4Address, IV6: Ipv6Address> PartialOrd<IpAddr<IV4, IV6>> for Ipv4Addr<IV4> {
    /// An IPv4 address comes before every IPv6 address.
    fn partial_cmp(&self, other: &IpAddr<IV4, IV6>) -> (r: Option<Ordering>) {
        match other {
            IpAddr::V4(v4) => self.partial_cmp(v4),
            IpAddr::V6(_) => Some(Ordering::Less),
        }
    }
}

impl<IV4: Ipv4Address, IV6: Ipv6Address> vstd::std_specs::cmp::PartialOrdSpecImpl<IpAddr<IV4, IV6>> for Ipv4Addr<IV4> {
    open spec fn obeys_partial_cmp_spec() -> bool {
        true
    }

    open spec fn partial_cmp_spec(&self, other: &IpAddr<IV4, IV6>) -> Option<Ordering> {
        if IpAddrView::V4(self@) == other@ {
            Some(Ordering::Equal)
        } else if IpAddr::V4(*self).spec_lt(other) {
            Some(Ordering::Less)
        } else {
            Some(Ordering::Greater)
        }
    }
}

impl<IV4: Ipv4Address, IV6: Ipv6Address> From<[u8; 4]> for IpAddr<IV4, IV6> {
    /// Creates the IPv4 address whose octets are those of the array.
    fn from(octets: [u8; 4]) -> (r: IpAddr<IV4, IV6>)
        ensures
            r@ == IpAddrView::V4(octets@),
    {
        IpAddr::V4(Ipv4Addr::from(octets))
    }
}

impl<IV4: Ipv4Address, IV6: Ipv6Address> vstd::std_specs::convert::FromSpecImpl<[u8; 4]> for IpAddr<IV4, IV6> {
    open spec fn obeys_from_spec() -> bool {
        true
    }

    open spec fn from_spec(octets: [u8; 4]) -> IpAddr<IV4, IV6> {
        IpAddr::V4(Ipv4Addr::of_octets(octets@))
    }
}

impl<IV4: Ipv4Address, IV6: Ipv6Address> PartialEq<Ipv6Addr<IV6>> for IpAddr<IV4, IV6> {
    /// An address of either family is equal to an IPv6 address when it is
    /// an IPv6 address with the same segments.
    fn eq(&self, other: &Ipv6Addr<IV6>) -> (r: bool)
        ensures
            r == (self@ == IpAddrView::V6(other@)),
    {
        match self {
            IpAddr::V4(_) => false,
            IpAddr::V6(v6) => v6.eq(other),
        }
    }
}

impl<IV4: Ipv4Address, IV6: Ipv6Address> vstd::std_specs::cmp::PartialEqSpecImpl<Ipv6Addr<IV6>> for IpAddr<IV4, IV6> {
    open spec fn obeys_eq_spec() -> bool {
        true
    }

    open spec fn eq_spec(&self, other: &Ipv6Addr<IV6>) -> bool {
        self@ == IpAddrView::V6(other@)
    }
}

impl<IV4: Ipv4Address, IV6: Ipv6Address> PartialOrd<Ipv6Addr<IV6>> for IpAddr<IV4, IV6> {
    /// An IPv4 address comes before every IPv6 address.
    fn partial_cmp(&self, other: &Ipv6Addr<IV6>) -> (r: Option<Ordering>) {
        match self {
            IpAddr::V4(_) => Some(Ordering::Less),
            IpAddr::V6(v6) => v6.partial_cmp(other),
        }
    }
}

impl<IV4: Ipv4Address, IV6: Ipv6Address> vstd::std_specs::cmp::PartialOrdSpecImpl<Ipv6Addr<IV6>> for IpAddr<IV4, IV6> {
    open spec fn obeys_partial_cmp_spec() -> bool {
        true
    }

    open spec fn partial_cmp_spec(&self, other: &Ipv6Addr<IV6>) -> Option<Ordering> {
        if self@ == IpAddrView::V6(other@) {
            Some(Ordering::Equal)
        } else if self.spec_lt(&IpAddr::V6(*other)) {
            Some(Ordering::Less)
        } else {
            Some(Ordering::Greater)
        }
    }
}

impl<IV4: Ipv4Address, IV6: Ipv6Address> From<[u8; 16]> for IpAddr<IV4, IV6> {
    /// Creates the IPv6 address whose segments are made of the sixteen
    /// octets.
    fn from(octets: [u8; 16]) -> (r: IpAddr<IV4, IV6>)
        ensures
            r@ == IpAddrView::V6(crate::ipv6::segments_of_octets(octets@)),
    {
        IpAddr::V6(Ipv6Addr::from(octets))
    }
}

impl<IV4: Ipv4Address, IV6: Ipv6Address> vstd::std_specs::convert::FromSpecImpl<[u8; 16]> for IpAddr<IV4, IV6> {
    open spec fn obeys_from_spec() -> bool {
        true
    }

    open spec fn from_spec(octets: [u8; 16]) -> IpAddr<IV4, IV6> {
        IpAddr::V6(Ipv6Addr::spec_from_octets(octets@))
    }
}

impl<IV4: Ipv4Address, IV6: Ipv6Address> From<[u16; 8]> for IpAddr<IV4, IV6> {
    /// Creates the IPv6 address whose segments are those of the array.
    fn from(segments: [u16; 8]) -> (r: IpAddr<IV4, IV6>)
        ensures
            r@ == IpAddrView::V6(segments@),
    {
        IpAddr::V6(Ipv6Addr::from(segments))
    }
}

impl<IV4: Ipv4Address, IV6: Ipv6Address> vstd::std_specs::convert::FromSpecImpl<[u16; 8]> for IpAddr<IV4, IV6> {
    open spec fn obeys_from_spec() -> bool {
        true
    }

    open spec fn from_spec(segments: [u16; 8]) -> IpAddr<IV4, IV6> {
        IpAddr::V6(Ipv6Addr::of_segments(segments@))
    }
}

} // verus!
