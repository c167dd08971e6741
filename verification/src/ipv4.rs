//! IPv4 addresses: the backend contract, the address type and its
//! classification by range.

use crate::ipv6::{octo, segment_of, Ipv6Addr, Ipv6Address};
use crate::order::{lex_less, lemma_lex_trichotomy, same_up_to};
use crate::text::{ipv4_text, ipv4_to_string};
use core::cmp::Ordering;
use vstd::prelude::*;

verus! {

/// What a storage backend must offer to stand for an IPv4 address.
///
/// A backend is free in how it keeps the four octets. The contract only asks
/// that `new` is a function of its arguments (`spec_new`), that the octets of
/// a new value are the ones it was built from, and that `octets` reports
/// `spec_octets`.
pub trait Ipv4Address: Clone + Copy + PartialEq + Ord {
    /// The four octets that this value stands for, most significant first.
    spec fn spec_octets(&self) -> [u8; 4];

    /// The value that `new` returns for `a.b.c.d`.
    spec fn spec_new(a: u8, b: u8, c: u8, d: u8) -> Self;

    /// The octets of `spec_new(a, b, c, d)` are `a`, `b`, `c`, `d`.
    proof fn lemma_new_octets(a: u8, b: u8, c: u8, d: u8)
        ensures
            Self::spec_new(a, b, c, d).spec_octets()@ == seq![a, b, c, d],
    ;

    /// The address of the local host, `127.0.0.1`.
    fn localhost() -> (r: Self)
        ensures
            r.spec_octets()@ == seq![127u8, 0u8, 0u8, 1u8],
    ;

    /// The unspecified address, `0.0.0.0`.
    fn unspecified() -> (r: Self)
        ensures
            r.spec_octets()@ == seq![0u8, 0u8, 0u8, 0u8],
    ;

    /// The broadcast address, `255.255.255.255`.
    fn broadcast() -> (r: Self)
        ensures
            r.spec_octets()@ == seq![255u8, 255u8, 255u8, 255u8],
    ;

    /// Builds the value that stands for `a.b.c.d`.
    fn new(a: u8, b: u8, c: u8, d: u8) -> (r: Self)
        ensures
            r == Self::spec_new(a, b, c, d),
    ;

    /// Returns the four octets, most significant first.
    fn octets(&self) -> (r: [u8; 4])
        ensures
            r == self.spec_octets(),
    ;
}

/// The sequence of the four octets `a`, `b`, `c`, `d`.
pub open spec fn quad(a: u8, b: u8, c: u8, d: u8) -> Seq<u8> {
    seq![a, b, c, d]
}

/// The 32-bit number whose big-endian bytes are the four octets `o`.
pub open spec fn u32_of_octets(o: Seq<u8>) -> u32
    recommends
        o.len() == 4,
{
    (o[0] * 0x100_0000 + o[1] * 0x1_0000 + o[2] * 0x100 + o[3]) as u32
}

/// The big-endian bytes of the 32-bit number `n`.
pub open spec fn octets_of_u32(n: u32) -> Seq<u8> {
    quad(
        (n / 0x100_0000) as u8,
        (n / 0x1_0000 % 0x100) as u8,
        (n / 0x100 % 0x100) as u8,
        (n % 0x100) as u8,
    )
}

/// The big-endian bytes of the number made from four octets are these octets.
pub proof fn lemma_octets_of_u32_of_octets(a: u8, b: u8, c: u8, d: u8)
    ensures
        octets_of_u32(u32_of_octets(quad(a, b, c, d))) == quad(a, b, c, d),
{
    let n: u32 = u32_of_octets(quad(a, b, c, d));
    assert(n == a * 0x100_0000 + b * 0x1_0000 + c * 0x100 + d);
    assert(n / 0x100_0000 == a && n / 0x1_0000 % 0x100 == b && n / 0x100 % 0x100 == c && n % 0x100
        == d) by (bit_vector)
        requires
            n == a * 0x100_0000 + b * 0x1_0000 + c * 0x100 + d,
    ;
}

/// The number made from the big-endian bytes of `n` is `n`.
pub proof fn lemma_u32_of_octets_of_u32(n: u32)
    ensures
        u32_of_octets(octets_of_u32(n)) == n,
{
    assert((n / 0x100_0000) * 0x100_0000 + (n / 0x1_0000 % 0x100) * 0x1_0000 + (n / 0x100 % 0x100)
        * 0x100 + n % 0x100 == n) by (bit_vector);
}

/// An IPv4 address over the backend `IV4`.
///
/// Its view is the sequence of its four octets, most significant first.
/// Two addresses are equal when their octets are.
#[derive(Debug)]
pub struct Ipv4Addr<IV4: Ipv4Address> {
    inner: IV4,
}

impl<IV4: Ipv4Address> Clone for Ipv4Addr<IV4> {
    fn clone(&self) -> (r: Self)
        ensures
            r == *self,
    {
        *self
    }
}

impl<IV4: Ipv4Address> Copy for Ipv4Addr<IV4> {

}

impl<IV4: Ipv4Address> View for Ipv4Addr<IV4> {
    type V = Seq<u8>;

    closed spec fn view(&self) -> Seq<u8> {
        self.inner.spec_octets()@
    }
}

impl<IV4: Ipv4Address> Ipv4Addr<IV4> {
    /// The address that `new` returns for `a.b.c.d`.
    pub closed spec fn spec_new(a: u8, b: u8, c: u8, d: u8) -> Self {
        Ipv4Addr { inner: IV4::spec_new(a, b, c, d) }
    }

    /// The address that `from` returns for four octets in a sequence.
    pub open spec fn of_octets(o: Seq<u8>) -> Self {
        Self::spec_new(o[0], o[1], o[2], o[3])
    }

    /// Every address has four octets.
    pub broadcast proof fn lemma_view_len(&self)
        ensures
            #[trigger] self@.len() == 4,
    {
    }

    /// The address built from four octets has exactly these octets.
    pub proof fn lemma_new_view(a: u8, b: u8, c: u8, d: u8)
        ensures
            Self::spec_new(a, b, c, d)@ == quad(a, b, c, d),
    {
        IV4::lemma_new_octets(a, b, c, d);
    }

    /// Building an address from the octets of an array and reading its
    /// octets back gives the array again.
    pub proof fn lemma_octets_of_new(o: [u8; 4])
        ensures
            Self::spec_new(o[0], o[1], o[2], o[3])@ == o@,
    {
        Self::lemma_new_view(o[0], o[1], o[2], o[3]);
        assert(quad(o[0], o[1], o[2], o[3]) =~= o@);
    }

    /// The address of the local host, `127.0.0.1`.
    pub fn localhost() -> (r: Self)
        ensures
            r@ == quad(127, 0, 0, 1),
    {
        Ipv4Addr { inner: IV4::localhost() }
    }

    /// The unspecified address, `0.0.0.0`.
    pub fn unspecified() -> (r: Self)
        ensures
            r@ == quad(0, 0, 0, 0),
    {
        Ipv4Addr { inner: IV4::unspecified() }
    }

    /// The broadcast address, `255.255.255.255`.
    pub fn broadcast() -> (r: Self)
        ensures
            r@ == quad(255, 255, 255, 255),
    {
        Ipv4Addr { inner: IV4::broadcast() }
    }

    /// Creates the address `a.b.c.d`.
    pub fn new(a: u8, b: u8, c: u8, d: u8) -> (r: Self)
        ensures
            r == Self::spec_new(a, b, c, d),
            r@ == quad(a, b, c, d),
    {
        proof {
            Self::lemma_new_view(a, b, c, d);
        }
        Ipv4Addr { inner: IV4::new(a, b, c, d) }
    }

    /// Returns the four octets of the address, most significant first.
    pub fn octets(&self) -> (r: [u8; 4])
        ensures
            r@ == self@,
    {
        self.inner.octets()
    }

    /// `198.18.0.0/15`, set aside for benchmarking network devices.
    pub open spec fn spec_is_benchmarking(&self) -> bool {
        self@[0] == 198 && 18 <= self@[1] <= 19
    }

    /// Tells whether the address lies in `198.18.0.0/15`.
    #[verifier::when_used_as_spec(spec_is_benchmarking)]
    pub fn is_benchmarking(&self) -> (r: bool)
        ensures
            r == self.spec_is_benchmarking(),
    {
        let o = self.octets();
        let b: u8 = o[1];
        assert((b & 0xfe == 18) <==> (18 <= b <= 19)) by (bit_vector);
        o[0] == 198 && (o[1] & 0xfe) == 18
    }

    /// The one address `255.255.255.255`.
    pub open spec fn spec_is_broadcast(&self) -> bool {
        self@ == quad(255, 255, 255, 255)
    }

    /// Tells whether the address is `255.255.255.255`.
    #[verifier::when_used_as_spec(spec_is_broadcast)]
    pub fn is_broadcast(&self) -> (r: bool)
        ensures
            r == self.spec_is_broadcast(),
    {
        let o = self.octets();
        let r = o[0] == 255 && o[1] == 255 && o[2] == 255 && o[3] == 255;
        assert(r ==> self@ =~= quad(255, 255, 255, 255));
        r
    }

    /// `192.0.2.0/24`, `198.51.100.0/24` and `203.0.113.0/24`, the three
    /// ranges for use in documentation.
    pub open spec fn spec_is_documentation(&self) -> bool {
        ||| self@[0] == 192 && self@[1] == 0 && self@[2] == 2
        ||| self@[0] == 198 && self@[1] == 51 && self@[2] == 100
        ||| self@[0] == 203 && self@[1] == 0 && self@[2] == 113
    }

    /// Tells whether the address lies in a range kept for documentation.
    #[verifier::when_used_as_spec(spec_is_documentation)]
    pub fn is_documentation(&self) -> (r: bool)
        ensures
            r == self.spec_is_documentation(),
    {
        let o = self.octets();
        (o[0] == 192 && o[1] == 0 && o[2] == 2) || (o[0] == 198 && o[1] == 51 && o[2] == 100) || (
        o[0] == 203 && o[1] == 0 && o[2] == 113)
    }

    /// Global reach: `192.0.0.9` and `192.0.0.10` by exception; any other
    /// address when it is in none of the special ranges and its first octet
    /// is not zero.
    pub open spec fn spec_is_global(&self) -> bool {
        if self@ == quad(192, 0, 0, 9) || self@ == quad(192, 0, 0, 10) {
            true
        } else {
            &&& !self.spec_is_private()
            &&& !self.spec_is_loopback()
            &&& !self.spec_is_link_local()
            &&& !self.spec_is_broadcast()
            &&& !self.spec_is_documentation()
            &&& !self.spec_is_shared()
            &&& !self.spec_is_ietf_protocol_assignment()
            &&& !self.spec_is_reserved()
            &&& !self.spec_is_benchmarking()
            &&& self@[0] != 0
        }
    }

    /// Tells whether the address appears to be globally routable.
    #[verifier::when_used_as_spec(spec_is_global)]
    pub fn is_global(&self) -> (r: bool)
        ensures
            r == self.spec_is_global(),
    {
        let o = self.octets();
        if o[0] == 192 && o[1] == 0 && o[2] == 0 && (o[3] == 9 || o[3] == 10) {
            assert(self@ =~= quad(192, 0, 0, 9) || self@ =~= quad(192, 0, 0, 10));
            true
        } else {
            !self.is_private() && !self.is_loopback() && !self.is_link_local()
                && !self.is_broadcast() && !self.is_documentation() && !self.is_shared()
                && !self.is_ietf_protocol_assignment() && !self.is_reserved()
                && !self.is_benchmarking() && o[0] != 0
        }
    }

    /// `192.0.0.0/24`, kept for protocol assignments.
    pub open spec fn spec_is_ietf_protocol_assignment(&self) -> bool {
        self@[0] == 192 && self@[1] == 0 && self@[2] == 0
    }

    /// Tells whether the address lies in `192.0.0.0/24`.
    #[verifier::when_used_as_spec(spec_is_ietf_protocol_assignment)]
    pub fn is_ietf_protocol_assignment(&self) -> (r: bool)
        ensures
            r == self.spec_is_ietf_protocol_assignment(),
    {
        let o = self.octets();
        o[0] == 192 && o[1] == 0 && o[2] == 0
    }

    /// `169.254.0.0/16`.
    pub open spec fn spec_is_link_local(&self) -> bool {
        self@[0] == 169 && self@[1] == 254
    }

    /// Tells whether the address is link-local.
    #[verifier::when_used_as_spec(spec_is_link_local)]
    pub fn is_link_local(&self) -> (r: bool)
        ensures
            r == self.spec_is_link_local(),
    {
        let o = self.octets();
        o[0] == 169 && o[1] == 254
    }

    /// `127.0.0.0/8`.
    pub open spec fn spec_is_loopback(&self) -> bool {
        self@[0] == 127
    }

    /// Tells whether the address is a loopback address.
    #[verifier::when_used_as_spec(spec_is_loopback)]
    pub fn is_loopback(&self) -> (r: bool)
        ensures
            r == self.spec_is_loopback(),
    {
        self.octets()[0] == 127
    }

    /// `224.0.0.0/4`.
    pub open spec fn spec_is_multicast(&self) -> bool {
        224 <= self@[0] <= 239
    }

    /// Tells whether the address is a multicast address.
    #[verifier::when_used_as_spec(spec_is_multicast)]
    pub fn is_multicast(&self) -> (r: bool)
        ensures
            r == self.spec_is_multicast(),
    {
        let o = self.octets();
        o[0] >= 224 && o[0] <= 239
    }

    /// `10.0.0.0/8`, `172.16.0.0/12` and `192.168.0.0/16`.
    pub open spec fn spec_is_private(&self) -> bool {
        ||| self@[0] == 10
        ||| self@[0] == 172 && 16 <= self@[1] <= 31
        ||| self@[0] == 192 && self@[1] == 168
    }

    /// Tells whether the address lies in a private range.
    #[verifier::when_used_as_spec(spec_is_private)]
    pub fn is_private(&self) -> (r: bool)
        ensures
            r == self.spec_is_private(),
    {
        let o = self.octets();
        o[0] == 10 || (o[0] == 172 && o[1] >= 16 && o[1] <= 31) || (o[0] == 192 && o[1] == 168)
    }

    /// `240.0.0.0/4` without the broadcast address.
    pub open spec fn spec_is_reserved(&self) -> bool {
        self@[0] >= 240 && !self.spec_is_broadcast()
    }

    /// Tells whether the address is reserved for future use.
    #[verifier::when_used_as_spec(spec_is_reserved)]
    pub fn is_reserved(&self) -> (r: bool)
        ensures
            r == self.spec_is_reserved(),
    {
        let o = self.octets();
        let a: u8 = o[0];
        assert((a & 240 == 240) <==> a >= 240) by (bit_vector);
        o[0] & 240 == 240 && !self.is_broadcast()
    }

    /// `100.64.0.0/10`, the shared address space.
    pub open spec fn spec_is_shared(&self) -> bool {
        self@[0] == 100 && 64 <= self@[1] <= 127
    }

    /// Tells whether the address lies in the shared address space.
    #[verifier::when_used_as_spec(spec_is_shared)]
    pub fn is_shared(&self) -> (r: bool)
        ensures
            r == self.spec_is_shared(),
    {
        let o = self.octets();
        let b: u8 = o[1];
        assert((b & 0b1100_0000 == 0b0100_0000) <==> (64 <= b <= 127)) by (bit_vector);
        o[0] == 100 && (o[1] & 0b1100_0000 == 0b0100_0000)
    }

    /// The one address `0.0.0.0`.
    pub open spec fn spec_is_unspecified(&self) -> bool {
        self@ == quad(0, 0, 0, 0)
    }

    /// Tells whether the address is `0.0.0.0`.
    #[verifier::when_used_as_spec(spec_is_unspecified)]
    pub fn is_unspecified(&self) -> (r: bool)
        ensures
            r == self.spec_is_unspecified(),
    {
        let o = self.octets();
        let r = o[0] == 0 && o[1] == 0 && o[2] == 0 && o[3] == 0;
        assert(r ==> self@ =~= quad(0, 0, 0, 0));
        r
    }

    /// The number whose big-endian bytes are the octets of the address.
    pub open spec fn spec_to_u32(&self) -> u32 {
        u32_of_octets(self@)
    }

    /// Returns the number whose big-endian bytes are the octets of the
    /// address.
    #[verifier::when_used_as_spec(spec_to_u32)]
    pub fn to_u32(&self) -> (r: u32)
        ensures
            r == self.spec_to_u32(),
    {
        let o = self.octets();
        let (a, b, c, d): (u8, u8, u8, u8) = (o[0], o[1], o[2], o[3]);
        assert(((a as u32) << 24) | ((b as u32) << 16) | ((c as u32) << 8) | (d as u32) == a
            * 0x100_0000 + b * 0x1_0000 + c * 0x100 + d) by (bit_vector);
        ((a as u32) << 24) | ((b as u32) << 16) | ((c as u32) << 8) | (d as u32)
    }

    /// The address whose octets are the big-endian bytes of `n`.
    pub open spec fn spec_from_u32(n: u32) -> Self {
        Self::of_octets(octets_of_u32(n))
    }

    /// Creates the address whose octets are the big-endian bytes of `n`.
    #[verifier::when_used_as_spec(spec_from_u32)]
    pub fn from_u32(n: u32) -> (r: Self)
        ensures
            r == Self::spec_from_u32(n),
            r@ == octets_of_u32(n),
    {
        assert((n >> 24) == n / 0x100_0000 && ((n >> 16) & 0xff) == n / 0x1_0000 % 0x100 && ((n
            >> 8) & 0xff) == n / 0x100 % 0x100 && (n & 0xff) == n % 0x100) by (bit_vector);
        Self::new((n >> 24) as u8, ((n >> 16) & 0xff) as u8, ((n >> 8) & 0xff) as u8, (n & 0xff) as u8)
    }

    /// The IPv4-compatible IPv6 address `::a.b.c.d` of the address `a.b.c.d`.
    pub open spec fn spec_to_ipv6_compatible<IV6: Ipv6Address>(&self) -> Ipv6Addr<IV6> {
        Ipv6Addr::spec_new(
            0,
            0,
            0,
            0,
            0,
            0,
            segment_of(self@[0], self@[1]),
            segment_of(self@[2], self@[3]),
        )
    }

    /// Converts the address `a.b.c.d` to the IPv4-compatible IPv6 address
    /// `::a.b.c.d`.
    pub fn to_ipv6_compatible<IV6: Ipv6Address>(&self) -> (r: Ipv6Addr<IV6>)
        ensures
            r == self.spec_to_ipv6_compatible::<IV6>(),
            r@ == octo(
                0,
                0,
                0,
                0,
                0,
                0,
                segment_of(self@[0], self@[1]),
                segment_of(self@[2], self@[3]),
            ),
    {
        let o = self.octets();
        let (a, b, c, d): (u8, u8, u8, u8) = (o[0], o[1], o[2], o[3]);
        assert(((a as u16) << 8) | (b as u16) == a * 0x100 + b && ((c as u16) << 8) | (d as u16) == c
            * 0x100 + d) by (bit_vector);
        Ipv6Addr::new(0, 0, 0, 0, 0, 0, ((a as u16) << 8) | (b as u16), ((c as u16) << 8) | (d as u16))
    }

    /// The IPv4-mapped IPv6 address `::ffff:a.b.c.d` of the address `a.b.c.d`.
    pub open spec fn spec_to_ipv6_mapped<IV6: Ipv6Address>(&self) -> Ipv6Addr<IV6> {
        Ipv6Addr::spec_new(
            0,
            0,
            0,
            0,
            0,
            0xffff,
            segment_of(self@[0], self@[1]),
            segment_of(self@[2], self@[3]),
        )
    }

    /// Converts the address `a.b.c.d` to the IPv4-mapped IPv6 address
    /// `::ffff:a.b.c.d`.
    pub fn to_ipv6_mapped<IV6: Ipv6Address>(&self) -> (r: Ipv6Addr<IV6>)
        ensures
            r == self.spec_to_ipv6_mapped::<IV6>(),
            r@ == octo(
                0,
                0,
                0,
                0,
                0,
                0xffff,
                segment_of(self@[0], self@[1]),
                segment_of(self@[2], self@[3]),
            ),
    {
        let o = self.octets();
        let (a, b, c, d): (u8, u8, u8, u8) = (o[0], o[1], o[2], o[3]);
        assert(((a as u16) << 8) | (b as u16) == a * 0x100 + b && ((c as u16) << 8) | (d as u16) == c
            * 0x100 + d) by (bit_vector);
        Ipv6Addr::new(
            0,
            0,
            0,
            0,
            0,
            0xffff,
            ((a as u16) << 8) | (b as u16),
            ((c as u16) << 8) | (d as u16),
        )
    }

    /// Writes the address in dotted decimal: `a.b.c.d`.
    pub fn to_string(&self) -> (r: String)
        ensures
            r@ == ipv4_text(self@),
    {
        let o = self.octets();
        ipv4_to_string(&o)
    }

    /// The octets of the address as numbers, most significant first.
    pub open spec fn octet_values(&self) -> Seq<int> {
        self@.map_values(|x: u8| x as int)
    }

    /// Whether the address comes before `other`: the octets of the two are
    /// compared in lexicographic order.
    pub open spec fn spec_lt(&self, other: &Self) -> bool {
        lex_less(self.octet_values(), other.octet_values())
    }

    /// Tells whether the address comes before `other` in the lexicographic
    /// order of their octets.
    #[verifier::when_used_as_spec(spec_lt)]
    pub fn precedes(&self, other: &Self) -> (r: bool)
        ensures
            r == self.spec_lt(other),
    {
        let a = self.octets();
        let b = other.octets();
        let ghost x = self.octet_values();
        let ghost y = other.octet_values();
        proof {
            lemma_lex_trichotomy(x, y);
        }
        let mut i: usize = 0;
        while i < 4
            invariant
                i <= 4,
                a@ == self@,
                b@ == other@,
                x == self.octet_values(),
                y == other.octet_values(),
                same_up_to(x, y, i as int),
            decreases 4 - i,
        {
            if a[i] < b[i] {
                assert(0 <= i < x.len() && x[i as int] < y[i as int] && same_up_to(x, y, i as int));
                return true;
            }
            if a[i] > b[i] {
                assert(same_up_to(y, x, i as int));
                assert(0 <= i < y.len() && y[i as int] < x[i as int] && same_up_to(y, x, i as int));
                return false;
            }
            i += 1;
        }
        assert(x =~= y);
        false
    }

    /// Turning an address into a number and the number back into an address
    /// gives an address with the same octets.
    pub proof fn lemma_u32_round_trip(self)
        ensures
            Self::spec_from_u32(self.spec_to_u32())@ == self@,
            <Self as vstd::std_specs::convert::FromSpec<u32>>::from_spec(
                <u32 as vstd::std_specs::convert::FromSpec<Self>>::from_spec(self),
            )@ == self@,
    {
        let o = self@;
        assert(o =~= quad(o[0], o[1], o[2], o[3]));
        lemma_octets_of_u32_of_octets(o[0], o[1], o[2], o[3]);
        Self::lemma_new_view(o[0], o[1], o[2], o[3]);
    }

    /// Turning a number into an address and the address back into a number
    /// gives the number again.
    pub proof fn lemma_u32_of_address(n: u32)
        ensures
            Self::spec_from_u32(n).spec_to_u32() == n,
    {
        let p = octets_of_u32(n);
        Self::lemma_new_view(p[0], p[1], p[2], p[3]);
        lemma_u32_of_octets_of_u32(n);
    }
}

impl<IV4: Ipv4Address> PartialEq for Ipv4Addr<IV4> {
    /// Two addresses are equal when they have the same octets.
    fn eq(&self, other: &Ipv4Addr<IV4>) -> (r: bool)
        ensures
            r == (self@ == other@),
    {
        let a = self.octets();
        let b = other.octets();
        let r = a[0] == b[0] && a[1] == b[1] && a[2] == b[2] && a[3] == b[3];
        assert(r ==> self@ =~= other@);
        r
    }
}

impl<IV4: Ipv4Address> vstd::std_specs::cmp::PartialEqSpecImpl for Ipv4Addr<IV4> {
    open spec fn obeys_eq_spec() -> bool {
        true
    }

    open spec fn eq_spec(&self, other: &Ipv4Addr<IV4>) -> bool {
        self@ == other@
    }
}

impl<IV4: Ipv4Address> Eq for Ipv4Addr<IV4> {

}

impl<IV4: Ipv4Address> core::hash::Hash for Ipv4Addr<IV4> {
    /// Feeds the four octets to the hasher, so that equal addresses hash
    /// alike.
    fn hash<H: core::hash::Hasher>(&self, state: &mut H) {
        let o = self.octets();
        o.hash(state)
    }
}

impl<IV4: Ipv4Address> PartialOrd for Ipv4Addr<IV4> {
    /// Orders two addresses by their octets, lexicographically.
    fn partial_cmp(&self, other: &Ipv4Addr<IV4>) -> (r: Option<Ordering>) {
        if self.eq(other) {
            Some(Ordering::Equal)
        } else if self.precedes(other) {
            Some(Ordering::Less)
        } else {
            Some(Ordering::Greater)
        }
    }
}

impl<IV4: Ipv4Address> vstd::std_specs::cmp::PartialOrdSpecImpl for Ipv4Addr<IV4> {
    open spec fn obeys_partial_cmp_spec() -> bool {
        true
    }

    open spec fn partial_cmp_spec(&self, other: &Ipv4Addr<IV4>) -> Option<Ordering> {
        if self@ == other@ {
            Some(Ordering::Equal)
        } else if self.spec_lt(other) {
            Some(Ordering::Less)
        } else {
            Some(Ordering::Greater)
        }
    }
}

impl<IV4: Ipv4Address> From<[u8; 4]> for Ipv4Addr<IV4> {
    /// Creates the address whose octets are those of the array.
    fn from(octets: [u8; 4]) -> (r: Ipv4Addr<IV4>)
        ensures
            r@ == octets@,
    {
        proof {
            Self::lemma_octets_of_new(octets);
        }
        Ipv4Addr::new(octets[0], octets[1], octets[2], octets[3])
    }
}

impl<IV4: Ipv4Address> vstd::std_specs::convert::FromSpecImpl<[u8; 4]> for Ipv4Addr<IV4> {
    open spec fn obeys_from_spec() -> bool {
        true
    }

    open spec fn from_spec(octets: [u8; 4]) -> Ipv4Addr<IV4> {
        Self::of_octets(octets@)
    }
}

impl<IV4: Ipv4Address> From<u32> for Ipv4Addr<IV4> {
    /// Creates the address whose octets are the big-endian bytes of `ip`.
    fn from(ip: u32) -> (r: Ipv4Addr<IV4>)
        ensures
            r@ == octets_of_u32(ip),
    {
        Ipv4Addr::from_u32(ip)
    }
}

impl<IV4: Ipv4Address> vstd::std_specs::convert::FromSpecImpl<u32> for Ipv4Addr<IV4> {
    open spec fn obeys_from_spec() -> bool {
        true
    }

    open spec fn from_spec(ip: u32) -> Ipv4Addr<IV4> {
        Self::spec_from_u32(ip)
    }
}

impl<IV4: Ipv4Address> From<Ipv4Addr<IV4>> for u32 {
    /// Returns the number whose big-endian bytes are the octets of `ip`.
    fn from(ip: Ipv4Addr<IV4>) -> (r: u32) {
        ip.to_u32()
    }
}

impl<IV4: Ipv4Address> vstd::std_specs::convert::FromSpecImpl<Ipv4Addr<IV4>> for u32 {
    open spec fn obeys_from_spec() -> bool {
        true
    }

    open spec fn from_spec(ip: Ipv4Addr<IV4>) -> u32 {
        ip.spec_to_u32()
    }
}

} // verus!
