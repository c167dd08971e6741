//! IPv6 addresses: the backend contract, the address type, its
//! classification by range and the scope of a multicast address.

use crate::ipv4::{quad, Ipv4Addr, Ipv4Address};
use crate::order::{lex_less, lemma_lex_trichotomy, same_up_to};
use crate::text::{ipv6_text, ipv6_to_string};
use core::cmp::Ordering;
use vstd::prelude::*;

verus! {

/// What a storage backend must offer to stand for an IPv6 address.
///
/// A backend is free in how it keeps the eight segments. The contract only
/// asks that `new` is a function of its arguments (`spec_new`), that the
/// segments of a new value are the ones it was built from, and that
/// `segments` reports `spec_segments`.
pub trait Ipv6Address: Clone + Copy + PartialEq + PartialOrd + Eq + Ord {
    /// The eight segments that this value stands for, most significant first.
    spec fn spec_segments(&self) -> [u16; 8];

    /// The value that `new` returns for `a:b:c:d:e:f:g:h`.
    spec fn spec_new(a: u16, b: u16, c: u16, d: u16, e: u16, f: u16, g: u16, h: u16) -> Self;

    /// The segments of `spec_new(a, .., h)` are `a`, .., `h`.
    proof fn lemma_new_segments(a: u16, b: u16, c: u16, d: u16, e: u16, f: u16, g: u16, h: u16)
        ensures
            Self::spec_new(a, b, c, d, e, f, g, h).spec_segments()@ == seq![a, b, c, d, e, f, g, h],
    ;

    /// The address of the local host, `::1`.
    fn localhost() -> (r: Self)
        ensures
            r.spec_segments()@ == seq![0u16, 0u16, 0u16, 0u16, 0u16, 0u16, 0u16, 1u16],
    ;

    /// The unspecified address, `::`.
    fn unspecified() -> (r: Self)
        ensures
            r.spec_segments()@ == seq![0u16, 0u16, 0u16, 0u16, 0u16, 0u16, 0u16, 0u16],
    ;

    /// Builds the value that stands for `a:b:c:d:e:f:g:h`.
    fn new(a: u16, b: u16, c: u16, d: u16, e: u16, f: u16, g: u16, h: u16) -> (r: Self)
        ensures
            r == Self::spec_new(a, b, c, d, e, f, g, h),
    ;

    /// Returns the eight segments, most significant first.
    fn segments(&self) -> (r: [u16; 8])
        ensures
            r == self.spec_segments(),
    ;
}

/// How far a multicast address reaches.
#[derive(Copy, Clone, PartialEq, Eq, Structural, Hash, Debug)]
pub enum Ipv6MulticastScope {
    InterfaceLocal,
    LinkLocal,
    RealmLocal,
    AdminLocal,
    SiteLocal,
    OrganizationLocal,
    Global,
}

/// The sequence of the eight segments `a`, .., `h`.
pub open spec fn octo(a: u16, b: u16, c: u16, d: u16, e: u16, f: u16, g: u16, h: u16) -> Seq<u16> {
    seq![a, b, c, d, e, f, g, h]
}

/// The segment whose big-endian bytes are `hi` and `lo`.
pub open spec fn segment_of(hi: u8, lo: u8) -> u16 {
    (hi * 0x100 + lo) as u16
}

/// The more significant byte of the segment `s`.
pub open spec fn high_byte(s: u16) -> u8 {
    (s / 0x100) as u8
}

/// The less significant byte of the segment `s`.
pub open spec fn low_byte(s: u16) -> u8 {
    (s % 0x100) as u8
}

/// The sixteen octets of eight segments: each segment gives two bytes, the
/// more significant one first.
pub open spec fn octets_of_segments(s: Seq<u16>) -> Seq<u8>
    recommends
        s.len() == 8,
{
    Seq::new(16, |i: int| if i % 2 == 0 { high_byte(s[i / 2]) } else { low_byte(s[i / 2]) })
}

/// The eight segments of sixteen octets: each pair of bytes gives one segment.
pub open spec fn segments_of_octets(o: Seq<u8>) -> Seq<u16>
    recommends
        o.len() == 16,
{
    Seq::new(8, |i: int| segment_of(o[2 * i], o[2 * i + 1]))
}

/// The 128-bit number whose big-endian 16-bit groups are the eight segments `s`.
pub open spec fn u128_of_segments(s: Seq<u16>) -> u128
    recommends
        s.len() == 8,
{
    (s[0] * 0x1_0000_0000_0000_0000_0000_0000_0000 + s[1] * 0x1_0000_0000_0000_0000_0000_0000
        + s[2] * 0x1_0000_0000_0000_0000_0000 + s[3] * 0x1_0000_0000_0000_0000 + s[4]
        * 0x1_0000_0000_0000 + s[5] * 0x1_0000_0000 + s[6] * 0x1_0000 + s[7]) as u128
}

/// The big-endian 16-bit groups of the 128-bit number `n`.
pub open spec fn segments_of_u128(n: u128) -> Seq<u16> {
    octo(
        (n / 0x1_0000_0000_0000_0000_0000_0000_0000) as u16,
        (n / 0x1_0000_0000_0000_0000_0000_0000 % 0x1_0000) as u16,
        (n / 0x1_0000_0000_0000_0000_0000 % 0x1_0000) as u16,
        (n / 0x1_0000_0000_0000_0000 % 0x1_0000) as u16,
        (n / 0x1_0000_0000_0000 % 0x1_0000) as u16,
        (n / 0x1_0000_0000 % 0x1_0000) as u16,
        (n / 0x1_0000 % 0x1_0000) as u16,
        (n % 0x1_0000) as u16,
    )
}

/// The segments of the octets of eight segments are these segments.
pub proof fn lemma_segments_of_octets_of_segments(s: Seq<u16>)
    requires
        s.len() == 8,
    ensures
        segments_of_octets(octets_of_segments(s)) == s,
{
    let o = octets_of_segments(s);
    assert forall|i: int| 0 <= i < 8 implies segment_of(o[2 * i], o[2 * i + 1]) == s[i] by {
        let x: u16 = s[i];
        assert(o[2 * i] == high_byte(x));
        assert(o[2 * i + 1] == low_byte(x));
    }
    assert(segments_of_octets(o) =~= s);
}

/// The octets of the segments of sixteen octets are these octets.
pub proof fn lemma_octets_of_segments_of_octets(o: Seq<u8>)
    requires
        o.len() == 16,
    ensures
        octets_of_segments(segments_of_octets(o)) == o,
{
    let s = segments_of_octets(o);
    assert forall|i: int| 0 <= i < 16 implies #[trigger] octets_of_segments(s)[i] == o[i] by {
        let k = i / 2;
        assert(s[k] == segment_of(o[2 * k], o[2 * k + 1]));
    }
    assert(octets_of_segments(s) =~= o);
}

/// The groups of the number made from eight segments are these segments.
pub proof fn lemma_segments_of_u128_of_segments(
    a: u16,
    b: u16,
    c: u16,
    d: u16,
    e: u16,
    f: u16,
    g: u16,
    h: u16,
)
    ensures
        segments_of_u128(u128_of_segments(octo(a, b, c, d, e, f, g, h))) == octo(
            a,
            b,
            c,
            d,
            e,
            f,
            g,
            h,
        ),
{
    let n: u128 = u128_of_segments(octo(a, b, c, d, e, f, g, h));
    assert(n == a * 0x1_0000_0000_0000_0000_0000_0000_0000 + b * 0x1_0000_0000_0000_0000_0000_0000
        + c * 0x1_0000_0000_0000_0000_0000 + d * 0x1_0000_0000_0000_0000 + e * 0x1_0000_0000_0000
        + f * 0x1_0000_0000 + g * 0x1_0000 + h);
    assert(n / 0x1_0000_0000_0000_0000_0000_0000_0000 == a && n / 0x1_0000_0000_0000_0000_0000_0000
        % 0x1_0000 == b && n / 0x1_0000_0000_0000_0000_0000 % 0x1_0000 == c && n
        / 0x1_0000_0000_0000_0000 % 0x1_0000 == d && n / 0x1_0000_0000_0000 % 0x1_0000 == e && n
        / 0x1_0000_0000 % 0x1_0000 == f && n / 0x1_0000 % 0x1_0000 == g && n % 0x1_0000 == h)
        by (bit_vector)
        requires
            n == a * 0x1_0000_0000_0000_0000_0000_0000_0000 + b
                * 0x1_0000_0000_0000_0000_0000_0000 + c * 0x1_0000_0000_0000_0000_0000 + d
                * 0x1_0000_0000_0000_0000 + e * 0x1_0000_0000_0000 + f * 0x1_0000_0000 + g
                * 0x1_0000 + h,
    ;
}

/// The number made from the groups of `n` is `n`.
pub proof fn lemma_u128_of_segments_of_u128(n: u128)
    ensures
        u128_of_segments(segments_of_u128(n)) == n,
{
    assert((n / 0x1_0000_0000_0000_0000_0000_0000_0000) * 0x1_0000_0000_0000_0000_0000_0000_0000 + (
    n / 0x1_0000_0000_0000_0000_0000_0000 % 0x1_0000) * 0x1_0000_0000_0000_0000_0000_0000 + (n
        / 0x1_0000_0000_0000_0000_0000 % 0x1_0000) * 0x1_0000_0000_0000_0000_0000 + (n
        / 0x1_0000_0000_0000_0000 % 0x1_0000) * 0x1_0000_0000_0000_0000 + (n / 0x1_0000_0000_0000
        % 0x1_0000) * 0x1_0000_0000_0000 + (n / 0x1_0000_0000 % 0x1_0000) * 0x1_0000_0000 + (n
        / 0x1_0000 % 0x1_0000) * 0x1_0000 + n % 0x1_0000 == n) by (bit_vector);
}

/// An IPv6 address over the backend `IV6`.
///
/// Its view is the sequence of its eight segments, most significant first.
/// Two addresses are equal when their segments are.
#[derive(Debug)]
pub struct Ipv6Addr<IV6: Ipv6Address> {
    inner: IV6,
}

impl<IV6: Ipv6Address> Clone for Ipv6Addr<IV6> {
    fn clone(&self) -> (r: Self)
        ensures
            r == *self,
    {
        *self
    }
}

impl<IV6: Ipv6Address> Copy for Ipv6Addr<IV6> {

}

impl<IV6: Ipv6Address> View for Ipv6Addr<IV6> {
    type V = Seq<u16>;

    closed spec fn view(&self) -> Seq<u16> {
        self.inner.spec_segments()@
    }
}

impl<IV6: Ipv6Address> Ipv6Addr<IV6> {
    /// The address that `new` returns for `a:b:c:d:e:f:g:h`.
    pub closed spec fn spec_new(
        a: u16,
        b: u16,
        c: u16,
        d: u16,
        e: u16,
        f: u16,
        g: u16,
        h: u16,
    ) -> Self {
        Ipv6Addr { inner: IV6::spec_new(a, b, c, d, e, f, g, h) }
    }

    /// The address that `from` returns for eight segments in a sequence.
    pub open spec fn of_segments(s: Seq<u16>) -> Self {
        Self::spec_new(s[0], s[1], s[2], s[3], s[4], s[5], s[6], s[7])
    }

    /// Every address has eight segments.
    pub broadcast proof fn lemma_view_len(&self)
        ensures
            #[trigger] self@.len() == 8,
    {
    }

    /// The address built from eight segments has exactly these segments.
    pub proof fn lemma_new_view(a: u16, b: u16, c: u16, d: u16, e: u16, f: u16, g: u16, h: u16)
        ensures
            Self::spec_new(a, b, c, d, e, f, g, h)@ == octo(a, b, c, d, e, f, g, h),
    {
        IV6::lemma_new_segments(a, b, c, d, e, f, g, h);
    }

    /// The address built from a sequence of eight segments has this sequence
    /// for its segments.
    pub proof fn lemma_of_segments_view(s: Seq<u16>)
        requires
            s.len() == 8,
        ensures
            Self::of_segments(s)@ == s,
    {
        Self::lemma_new_view(s[0], s[1], s[2], s[3], s[4], s[5], s[6], s[7]);
        assert(octo(s[0], s[1], s[2], s[3], s[4], s[5], s[6], s[7]) =~= s);
    }

    /// Building an address from the segments of an array and reading its
    /// segments back gives the array again.
    pub proof fn lemma_segments_of_new(s: [u16; 8])
        ensures
            Self::spec_new(s[0], s[1], s[2], s[3], s[4], s[5], s[6], s[7])@ == s@,
    {
        Self::lemma_of_segments_view(s@);
    }

    /// Creates the address `a:b:c:d:e:f:g:h`.
    pub fn new(a: u16, b: u16, c: u16, d: u16, e: u16, f: u16, g: u16, h: u16) -> (r: Self)
        ensures
            r == Self::spec_new(a, b, c, d, e, f, g, h),
            r@ == octo(a, b, c, d, e, f, g, h),
    {
        proof {
            Self::lemma_new_view(a, b, c, d, e, f, g, h);
        }
        Ipv6Addr { inner: IV6::new(a, b, c, d, e, f, g, h) }
    }

    /// The address of the local host, `::1`.
    pub fn localhost() -> (r: Self)
        ensures
            r@ == octo(0, 0, 0, 0, 0, 0, 0, 1),
    {
        Ipv6Addr { inner: IV6::localhost() }
    }

    /// The unspecified address, `::`.
    pub fn unspecified() -> (r: Self)
        ensures
            r@ == octo(0, 0, 0, 0, 0, 0, 0, 0),
    {
        Ipv6Addr { inner: IV6::unspecified() }
    }

    /// Returns the eight segments of the address, most significant first.
    pub fn segments(&self) -> (r: [u16; 8])
        ensures
            r@ == self@,
    {
        self.inner.segments()
    }

    /// The one address `::`.
    pub open spec fn spec_is_unspecified(&self) -> bool {
        self@ == octo(0, 0, 0, 0, 0, 0, 0, 0)
    }

    /// Tells whether the address is `::`.
    #[verifier::when_used_as_spec(spec_is_unspecified)]
    pub fn is_unspecified(&self) -> (r: bool)
        ensures
            r == self.spec_is_unspecified(),
    {
        let s = self.segments();
        let r = s[0] == 0 && s[1] == 0 && s[2] == 0 && s[3] == 0 && s[4] == 0 && s[5] == 0 && s[6]
            == 0 && s[7] == 0;
        assert(r ==> self@ =~= octo(0, 0, 0, 0, 0, 0, 0, 0));
        r
    }

    /// The one address `::1`.
    pub open spec fn spec_is_loopback(&self) -> bool {
        self@ == octo(0, 0, 0, 0, 0, 0, 0, 1)
    }

    /// Tells whether the address is `::1`.
    #[verifier::when_used_as_spec(spec_is_loopback)]
    pub fn is_loopback(&self) -> (r: bool)
        ensures
            r == self.spec_is_loopback(),
    {
        let s = self.segments();
        let r = s[0] == 0 && s[1] == 0 && s[2] == 0 && s[3] == 0 && s[4] == 0 && s[5] == 0 && s[6]
            == 0 && s[7] == 1;
        assert(r ==> self@ =~= octo(0, 0, 0, 0, 0, 0, 0, 1));
        r
    }

    /// Global reach: a multicast address of global scope, or an address
    /// without a multicast scope that is a global unicast address.
    pub open spec fn spec_is_global(&self) -> bool {
        match self.spec_multicast_scope() {
            Some(Ipv6MulticastScope::Global) => true,
            None => self.spec_is_unicast_global(),
            _ => false,
        }
    }

    /// Tells whether the address appears to be globally routable.
    #[verifier::when_used_as_spec(spec_is_global)]
    pub fn is_global(&self) -> (r: bool)
        ensures
            r == self.spec_is_global(),
    {
        match self.multicast_scope() {
            Some(Ipv6MulticastScope::Global) => true,
            None => self.is_unicast_global(),
            _ => false,
        }
    }

    /// `fc00::/7`.
    pub open spec fn spec_is_unique_local(&self) -> bool {
        0xfc00 <= self@[0] <= 0xfdff
    }

    /// Tells whether the address is a unique local address.
    #[verifier::when_used_as_spec(spec_is_unique_local)]
    pub fn is_unique_local(&self) -> (r: bool)
        ensures
            r == self.spec_is_unique_local(),
    {
        let a: u16 = self.segments()[0];
        assert((a & 0xfe00 == 0xfc00) <==> (0xfc00 <= a <= 0xfdff)) by (bit_vector);
        (a & 0xfe00) == 0xfc00
    }

    /// `fe80::/64`: the first segment is `fe80` and the next three are zero.
    pub open spec fn spec_is_unicast_link_local_strict(&self) -> bool {
        self@[0] == 0xfe80 && self@[1] == 0 && self@[2] == 0 && self@[3] == 0
    }

    /// Tells whether the address is a unicast link-local address in the
    /// strict sense.
    #[verifier::when_used_as_spec(spec_is_unicast_link_local_strict)]
    pub fn is_unicast_link_local_strict(&self) -> (r: bool)
        ensures
            r == self.spec_is_unicast_link_local_strict(),
    {
        let s = self.segments();
        let (a, b, c, d): (u16, u16, u16, u16) = (s[0], s[1], s[2], s[3]);
        assert(a & 0xffff == a && b & 0xffff == b && c & 0xffff == c && d & 0xffff == d)
            by (bit_vector);
        (a & 0xffff) == 0xfe80 && (b & 0xffff) == 0 && (c & 0xffff) == 0 && (d & 0xffff) == 0
    }

    /// `fe80::/10`.
    pub open spec fn spec_is_unicast_link_local(&self) -> bool {
        0xfe80 <= self@[0] <= 0xfebf
    }

    /// Tells whether the address is a unicast link-local address in the
    /// loose sense.
    #[verifier::when_used_as_spec(spec_is_unicast_link_local)]
    pub fn is_unicast_link_local(&self) -> (r: bool)
        ensures
            r == self.spec_is_unicast_link_local(),
    {
        let a: u16 = self.segments()[0];
        assert((a & 0xffc0 == 0xfe80) <==> (0xfe80 <= a <= 0xfebf)) by (bit_vector);
        (a & 0xffc0) == 0xfe80
    }

    /// `fec0::/10`.
    pub open spec fn spec_is_unicast_site_local(&self) -> bool {
        0xfec0 <= self@[0] <= 0xfeff
    }

    /// Tells whether the address is a unicast site-local address.
    #[verifier::when_used_as_spec(spec_is_unicast_site_local)]
    pub fn is_unicast_site_local(&self) -> (r: bool)
        ensures
            r == self.spec_is_unicast_site_local(),
    {
        let a: u16 = self.segments()[0];
        assert((a & 0xffc0 == 0xfec0) <==> (0xfec0 <= a <= 0xfeff)) by (bit_vector);
        (a & 0xffc0) == 0xfec0
    }

    /// `2001:db8::/32`.
    pub open spec fn spec_is_documentation(&self) -> bool {
        self@[0] == 0x2001 && self@[1] == 0xdb8
    }

    /// Tells whether the address lies in the range kept for documentation.
    #[verifier::when_used_as_spec(spec_is_documentation)]
    pub fn is_documentation(&self) -> (r: bool)
        ensures
            r == self.spec_is_documentation(),
    {
        let s = self.segments();
        (s[0] == 0x2001) && (s[1] == 0xdb8)
    }

    /// A unicast address outside every special range: not multicast, not the
    /// loopback address, not link-local, not unique local, not unspecified
    /// and not for documentation.
    pub open spec fn spec_is_unicast_global(&self) -> bool {
        &&& !self.spec_is_multicast()
        &&& !self.spec_is_loopback()
        &&& !self.spec_is_unicast_link_local()
        &&& !self.spec_is_unique_local()
        &&& !self.spec_is_unspecified()
        &&& !self.spec_is_documentation()
    }

    /// Tells whether the address is a globally routable unicast address.
    #[verifier::when_used_as_spec(spec_is_unicast_global)]
    pub fn is_unicast_global(&self) -> (r: bool)
        ensures
            r == self.spec_is_unicast_global(),
    {
        !self.is_multicast() && !self.is_loopback() && !self.is_unicast_link_local()
            && !self.is_unique_local() && !self.is_unspecified() && !self.is_documentation()
    }

    /// The scope of a multicast address, read from the low four bits of its
    /// first segment; none for the other values of these bits and for an
    /// address that is not multicast.
    pub open spec fn spec_multicast_scope(&self) -> Option<Ipv6MulticastScope> {
        if self.spec_is_multicast() {
            let nibble = self@[0] % 16;
            if nibble == 1 {
                Some(Ipv6MulticastScope::InterfaceLocal)
            } else if nibble == 2 {
                Some(Ipv6MulticastScope::LinkLocal)
            } else if nibble == 3 {
                Some(Ipv6MulticastScope::RealmLocal)
            } else if nibble == 4 {
                Some(Ipv6MulticastScope::AdminLocal)
            } else if nibble == 5 {
                Some(Ipv6MulticastScope::SiteLocal)
            } else if nibble == 8 {
                Some(Ipv6MulticastScope::OrganizationLocal)
            } else if nibble == 14 {
                Some(Ipv6MulticastScope::Global)
            } else {
                None
            }
        } else {
            None
        }
    }

    /// Returns the scope of the address if it is a multicast address with a
    /// known scope.
    #[verifier::when_used_as_spec(spec_multicast_scope)]
    pub fn multicast_scope(&self) -> (r: Option<Ipv6MulticastScope>)
        ensures
            r == self.spec_multicast_scope(),
    {
        if self.is_multicast() {
            let a: u16 = self.segments()[0];
            assert(a & 0x000f == a % 16) by (bit_vector);
            match a & 0x000f {
                1 => Some(Ipv6MulticastScope::InterfaceLocal),
                2 => Some(Ipv6MulticastScope::LinkLocal),
                3 => Some(Ipv6MulticastScope::RealmLocal),
                4 => Some(Ipv6MulticastScope::AdminLocal),
                5 => Some(Ipv6MulticastScope::SiteLocal),
                8 => Some(Ipv6MulticastScope::OrganizationLocal),
                14 => Some(Ipv6MulticastScope::Global),
                _ => None,
            }
        } else {
            None
        }
    }

    /// `ff00::/8`.
    pub open spec fn spec_is_multicast(&self) -> bool {
        self@[0] >= 0xff00
    }

    /// Tells whether the address is a multicast address.
    #[verifier::when_used_as_spec(spec_is_multicast)]
    pub fn is_multicast(&self) -> (r: bool)
        ensures
            r == self.spec_is_multicast(),
    {
        let a: u16 = self.segments()[0];
        assert((a & 0xff00 == 0xff00) <==> a >= 0xff00) by (bit_vector);
        (a & 0xff00) == 0xff00
    }

    /// Whether the address embeds an IPv4 address: the first five segments
    /// are zero and the sixth is zero (IPv4-compatible) or `ffff`
    /// (IPv4-mapped).
    pub open spec fn embeds_ipv4(&self) -> bool {
        &&& self@[0] == 0 && self@[1] == 0 && self@[2] == 0 && self@[3] == 0 && self@[4] == 0
        &&& self@[5] == 0 || self@[5] == 0xffff
    }

    /// The four octets that an address embedding an IPv4 address carries in
    /// its last two segments.
    pub open spec fn embedded_octets(&self) -> Seq<u8> {
        quad(high_byte(self@[6]), low_byte(self@[6]), high_byte(self@[7]), low_byte(self@[7]))
    }

    /// The IPv4 address that the address embeds, if it embeds one.
    pub open spec fn spec_to_ipv4<IV4: Ipv4Address>(&self) -> Option<Ipv4Addr<IV4>> {
        if self.embeds_ipv4() {
            Some(Ipv4Addr::of_octets(self.embedded_octets()))
        } else {
            None
        }
    }

    /// Converts an IPv4-compatible or IPv4-mapped address to the IPv4
    /// address in its last two segments; gives `None` for any other address.
    pub fn to_ipv4<IV4: Ipv4Address>(&self) -> (r: Option<Ipv4Addr<IV4>>)
        ensures
            r == self.spec_to_ipv4::<IV4>(),
            r is Some <==> self.embeds_ipv4(),
            r matches Some(ip) ==> ip@ == self.embedded_octets(),
    {
        let s = self.segments();
        if s[0] == 0 && s[1] == 0 && s[2] == 0 && s[3] == 0 && s[4] == 0 && (s[5] == 0 || s[5]
            == 0xffff) {
            let (g, h): (u16, u16) = (s[6], s[7]);
            assert((g >> 8) == g / 0x100 && (g & 0xff) == g % 0x100 && (h >> 8) == h / 0x100 && (h
                & 0xff) == h % 0x100) by (bit_vector);
            Some(Ipv4Addr::new((g >> 8) as u8, (g & 0xff) as u8, (h >> 8) as u8, (h & 0xff) as u8))
        } else {
            None
        }
    }

    /// Returns the sixteen octets of the address: the two bytes of each
    /// segment, the more significant one first.
    pub fn octets(&self) -> (r: [u8; 16])
        ensures
            r@ == octets_of_segments(self@),
    {
        let s = self.segments();
        let mut r: [u8; 16] = [0;16];
        let mut i: usize = 0;
        while i < 8
            invariant
                i <= 8,
                s@ == self@,
                forall|k: int| 0 <= k < 2 * i ==> #[trigger] r@[k] == octets_of_segments(self@)[k],
            decreases 8 - i,
        {
            let x: u16 = s[i];
            assert((x >> 8) == x / 0x100 && (x & 0xff) == x % 0x100) by (bit_vector);
            r[2 * i] = (x >> 8) as u8;
            r[2 * i + 1] = (x & 0xff) as u8;
            i += 1;
        }
        assert(r@ =~= octets_of_segments(self@));
        r
    }

    /// The number whose big-endian 16-bit groups are the segments of the
    /// address.
    pub open spec fn spec_to_u128(&self) -> u128 {
        u128_of_segments(self@)
    }

    /// Returns the number whose big-endian 16-bit groups are the segments of
    /// the address.
    #[verifier::when_used_as_spec(spec_to_u128)]
    pub fn to_u128(&self) -> (r: u128)
        ensures
            r == self.spec_to_u128(),
    {
        let s = self.segments();
        let (a, b, c, d): (u16, u16, u16, u16) = (s[0], s[1], s[2], s[3]);
        let (e, f, g, h): (u16, u16, u16, u16) = (s[4], s[5], s[6], s[7]);
        assert(((a as u128) << 112) | ((b as u128) << 96) | ((c as u128) << 80) | ((d as u128) << 64)
            | ((e as u128) << 48) | ((f as u128) << 32) | ((g as u128) << 16) | (h as u128) == a
            * 0x1_0000_0000_0000_0000_0000_0000_0000 + b * 0x1_0000_0000_0000_0000_0000_0000 + c
            * 0x1_0000_0000_0000_0000_0000 + d * 0x1_0000_0000_0000_0000 + e * 0x1_0000_0000_0000
            + f * 0x1_0000_0000 + g * 0x1_0000 + h) by (bit_vector);
        ((a as u128) << 112) | ((b as u128) << 96) | ((c as u128) << 80) | ((d as u128) << 64) | ((
        e as u128) << 48) | ((f as u128) << 32) | ((g as u128) << 16) | (h as u128)
    }

    /// The address whose segments are the big-endian 16-bit groups of `n`.
    pub open spec fn spec_from_u128(n: u128) -> Self {
        Self::of_segments(segments_of_u128(n))
    }

    /// Creates the address whose segments are the big-endian 16-bit groups
    /// of `n`.
    #[verifier::when_used_as_spec(spec_from_u128)]
    pub fn from_u128(n: u128) -> (r: Self)
        ensures
            r == Self::spec_from_u128(n),
            r@ == segments_of_u128(n),
    {
        assert((n >> 112) == n / 0x1_0000_0000_0000_0000_0000_0000_0000 && ((n >> 96) & 0xffff) == n
            / 0x1_0000_0000_0000_0000_0000_0000 % 0x1_0000 && ((n >> 80) & 0xffff) == n
            / 0x1_0000_0000_0000_0000_0000 % 0x1_0000 && ((n >> 64) & 0xffff) == n
            / 0x1_0000_0000_0000_0000 % 0x1_0000 && ((n >> 48) & 0xffff) == n / 0x1_0000_0000_0000
            % 0x1_0000 && ((n >> 32) & 0xffff) == n / 0x1_0000_0000 % 0x1_0000 && ((n >> 16)
            & 0xffff) == n / 0x1_0000 % 0x1_0000 && (n & 0xffff) == n % 0x1_0000) by (bit_vector);
        Self::new(
            (n >> 112) as u16,
            ((n >> 96) & 0xffff) as u16,
            ((n >> 80) & 0xffff) as u16,
            ((n >> 64) & 0xffff) as u16,
            ((n >> 48) & 0xffff) as u16,
            ((n >> 32) & 0xffff) as u16,
            ((n >> 16) & 0xffff) as u16,
            (n & 0xffff) as u16,
        )
    }

    /// The address whose segments are made of the sixteen octets `o`.
    pub open spec fn spec_from_octets(o: Seq<u8>) -> Self {
        Self::of_segments(segments_of_octets(o))
    }

    /// Turning an address into a number and the number back into an address
    /// gives an address with the same segments.
    pub proof fn lemma_u128_round_trip(self)
        ensures
            Self::spec_from_u128(self.spec_to_u128())@ == self@,
            <Self as vstd::std_specs::convert::FromSpec<u128>>::from_spec(
                <u128 as vstd::std_specs::convert::FromSpec<Self>>::from_spec(self),
            )@ == self@,
    {
        let s = self@;
        assert(s =~= octo(s[0], s[1], s[2], s[3], s[4], s[5], s[6], s[7]));
        lemma_segments_of_u128_of_segments(s[0], s[1], s[2], s[3], s[4], s[5], s[6], s[7]);
        Self::lemma_of_segments_view(s);
    }

    /// Turning a number into an address and the address back into a number
    /// gives the number again.
    pub proof fn lemma_u128_of_address(n: u128)
        ensures
            Self::spec_from_u128(n).spec_to_u128() == n,
    {
        Self::lemma_of_segments_view(segments_of_u128(n));
        lemma_u128_of_segments_of_u128(n);
    }

    /// Turning an address into sixteen octets and the octets back into an
    /// address gives an address with the same segments.
    pub proof fn lemma_octets_round_trip(self)
        ensures
            Self::spec_from_octets(octets_of_segments(self@))@ == self@,
    {
        lemma_segments_of_octets_of_segments(self@);
        Self::lemma_of_segments_view(self@);
    }

    /// Writes the address in its canonical text.
    pub fn to_string(&self) -> (r: String)
        ensures
            r@ == ipv6_text(self@),
    {
        let s = self.segments();
        ipv6_to_string(&s)
    }

    /// The segments of the address as numbers, most significant first.
    pub open spec fn segment_values(&self) -> Seq<int> {
        self@.map_values(|x: u16| x as int)
    }

    /// Whether the address comes before `other`: the segments of the two
    /// are compared in lexicographic order.
    pub open spec fn spec_lt(&self, other: &Self) -> bool {
        lex_less(self.segment_values(), other.segment_values())
    }

    /// Tells whether the address comes before `other` in the lexicographic
    /// order of their segments.
    #[verifier::when_used_as_spec(spec_lt)]
    pub fn precedes(&self, other: &Self) -> (r: bool)
        ensures
            r == self.spec_lt(other),
    {
        let a = self.segments();
        let b = other.segments();
        let ghost x = self.segment_values();
        let ghost y = other.segment_values();
        proof {
            lemma_lex_trichotomy(x, y);
        }
        let mut i: usize = 0;
        while i < 8
            invariant
                i <= 8,
                a@ == self@,
                b@ == other@,
                x == self.segment_values(),
                y == other.segment_values(),
                same_up_to(x, y, i as int),
            decreases 8 - i,
        {
            if a[i] < b[i] {
                assert(0 <= i < x.len() && x[i as int] < y[i as int] && same_up_to(x, y, i as int));
                return true;
            }
            if a[i] > b[i] {
                assert(same_up_to(y, x, i as int));
                assert(0 <= i < y.len() && y[i as int] < x[i as int] && same_up_to(y, x, i as int));
                return false;
            }
            i += 1;
        }
        assert(x =~= y);
        false
    }
}

impl<IV6: Ipv6Address> PartialEq for Ipv6Addr<IV6> {
    /// Two addresses are equal when they have the same segments.
    fn eq(&self, other: &Ipv6Addr<IV6>) -> (r: bool)
        ensures
            r == (self@ == other@),
    {
        let a = self.segments();
        let b = other.segments();
        let r = a[0] == b[0] && a[1] == b[1] && a[2] == b[2] && a[3] == b[3] && a[4] == b[4] && a[5]
            == b[5] && a[6] == b[6] && a[7] == b[7];
        assert(r ==> self@ =~= other@);
        r
    }
}

impl<IV6: Ipv6Address> vstd::std_specs::cmp::PartialEqSpecImpl for Ipv6Addr<IV6> {
    open spec fn obeys_eq_spec() -> bool {
        true
    }

    open spec fn eq_spec(&self, other: &Ipv6Addr<IV6>) -> bool {
        self@ == other@
    }
}

impl<IV6: Ipv6Address> Eq for Ipv6Addr<IV6> {

}

impl<IV6: Ipv6Address> core::hash::Hash for Ipv6Addr<IV6> {
    /// Feeds the eight segments to the hasher, so that equal addresses hash
    /// alike.
    fn hash<H: core::hash::Hasher>(&self, state: &mut H) {
        let s = self.segments();
        s.hash(state)
    }
}

impl<IV6: Ipv6Address> PartialOrd for Ipv6Addr<IV6> {
    /// Orders two addresses by their segments, lexicographically.
    fn partial_cmp(&self, other: &Ipv6Addr<IV6>) -> (r: Option<Ordering>) {
        if self.eq(other) {
            Some(Ordering::Equal)
        } else if self.precedes(other) {
            Some(Ordering::Less)
        } else {
            Some(Ordering::Greater)
        }
    }
}

impl<IV6: Ipv6Address> vstd::std_specs::cmp::PartialOrdSpecImpl for Ipv6Addr<IV6> {
    open spec fn obeys_partial_cmp_spec() -> bool {
        true
    }

    open spec fn partial_cmp_spec(&self, other: &Ipv6Addr<IV6>) -> Option<Ordering> {
        if self@ == other@ {
            Some(Ordering::Equal)
        } else if self.spec_lt(other) {
            Some(Ordering::Less)
        } else {
            Some(Ordering::Greater)
        }
    }
}

impl<IV6: Ipv6Address> From<Ipv6Addr<IV6>> for u128 {
    /// Returns the number whose big-endian 16-bit groups are the segments of
    /// `ip`.
    fn from(ip: Ipv6Addr<IV6>) -> (r: u128) {
        ip.to_u128()
    }
}

impl<IV6: Ipv6Address> vstd::std_specs::convert::FromSpecImpl<Ipv6Addr<IV6>> for u128 {
    open spec fn obeys_from_spec() -> bool {
        true
    }

    open spec fn from_spec(ip: Ipv6Addr<IV6>) -> u128 {
        ip.spec_to_u128()
    }
}

impl<IV6: Ipv6Address> From<u128> for Ipv6Addr<IV6> {
    /// Creates the address whose segments are the big-endian 16-bit groups
    /// of `ip`.
    fn from(ip: u128) -> (r: Ipv6Addr<IV6>)
        ensures
            r@ == segments_of_u128(ip),
    {
        Ipv6Addr::from_u128(ip)
    }
}

impl<IV6: Ipv6Address> vstd::std_specs::convert::FromSpecImpl<u128> for Ipv6Addr<IV6> {
    open spec fn obeys_from_spec() -> bool {
        true
    }

    open spec fn from_spec(ip: u128) -> Ipv6Addr<IV6> {
        Self::spec_from_u128(ip)
    }
}

impl<IV6: Ipv6Address> From<[u8; 16]> for Ipv6Addr<IV6> {
    /// Creates the address whose segments are made of the sixteen octets:
    /// each pair of bytes gives one segment, the more significant byte first.
    fn from(o: [u8; 16]) -> (r: Ipv6Addr<IV6>)
        ensures
            r@ == segments_of_octets(o@),
    {
        let mut s: [u16; 8] = [0;8];
        let mut i: usize = 0;
        while i < 8
            invariant
                i <= 8,
                forall|k: int| 0 <= k < i ==> #[trigger] s@[k] == segments_of_octets(o@)[k],
            decreases 8 - i,
        {
            let (hi, lo): (u8, u8) = (o[2 * i], o[2 * i + 1]);
            assert(((hi as u16) << 8) | (lo as u16) == hi * 0x100 + lo) by (bit_vector);
            s[i] = ((hi as u16) << 8) | (lo as u16);
            i += 1;
        }
        assert(s@ =~= segments_of_octets(o@));
        proof {
            Self::lemma_of_segments_view(s@);
        }
        Ipv6Addr::new(s[0], s[1], s[2], s[3], s[4], s[5], s[6], s[7])
    }
}

impl<IV6: Ipv6Address> vstd::std_specs::convert::FromSpecImpl<[u8; 16]> for Ipv6Addr<IV6> {
    open spec fn obeys_from_spec() -> bool {
        true
    }

    open spec fn from_spec(o: [u8; 16]) -> Ipv6Addr<IV6> {
        Self::spec_from_octets(o@)
    }
}

impl<IV6: Ipv6Address> From<[u16; 8]> for Ipv6Addr<IV6> {
    /// Creates the address whose segments are those of the array.
    fn from(segments: [u16; 8]) -> (r: Ipv6Addr<IV6>)
        ensures
            r@ == segments@,
    {
        proof {
            Self::lemma_segments_of_new(segments);
        }
        Ipv6Addr::new(
            segments[0],
            segments[1],
            segments[2],
            segments[3],
            segments[4],
            segments[5],
            segments[6],
            segments[7],
        )
    }
}

impl<IV6: Ipv6Address> vstd::std_specs::convert::FromSpecImpl<[u16; 8]> for Ipv6Addr<IV6> {
    open spec fn obeys_from_spec() -> bool {
        true
    }

    open spec fn from_spec(segments: [u16; 8]) -> Ipv6Addr<IV6> {
        Self::of_segments(segments@)
    }
}

} // verus!
