use addr_hal::Ipv4Addr;
use addr_hal::Ipv4AddrInner;
use addr_hal::Ipv6Addr;
use addr_hal::Ipv6AddrInner;
use addr_hal::Ipv6MulticastScope;

type A4 = Ipv4Addr<Ipv4AddrInner>;
type A6 = Ipv6Addr<Ipv6AddrInner>;

#[test]
fn new_then_segments_gives_the_segments() {
    assert_eq!(
        A6::new(0, 0, 0, 0, 0, 0xffff, 0xc00a, 0x2ff).segments(),
        [0, 0, 0, 0, 0, 0xffff, 0xc00a, 0x2ff]
    );
    for s in [
        [0u16, 0, 0, 0, 0, 0, 0, 0],
        [1, 2, 3, 4, 5, 6, 7, 8],
        [0xffff, 0xffff, 0xffff, 0xffff, 0xffff, 0xffff, 0xffff, 0xffff],
        [0x2001, 0xdb8, 0, 0, 0, 0, 0, 1],
    ] {
        assert_eq!(A6::new(s[0], s[1], s[2], s[3], s[4], s[5], s[6], s[7]).segments(), s);
    }
}

#[test]
fn ipv6_constants() {
    assert_eq!(A6::localhost(), A6::new(0, 0, 0, 0, 0, 0, 0, 1));
    assert_eq!(A6::unspecified(), A6::new(0, 0, 0, 0, 0, 0, 0, 0));
}

#[test]
fn ipv6_is_unspecified() {
    assert_eq!(A6::new(0, 0, 0, 0, 0, 0xffff, 0xc00a, 0x2ff).is_unspecified(), false);
    assert_eq!(A6::new(0, 0, 0, 0, 0, 0, 0, 0).is_unspecified(), true);
}

#[test]
fn ipv6_is_loopback() {
    assert_eq!(A6::new(0, 0, 0, 0, 0, 0xffff, 0xc00a, 0x2ff).is_loopback(), false);
    assert_eq!(A6::new(0, 0, 0, 0, 0, 0, 0, 0x1).is_loopback(), true);
    assert_eq!(A6::new(0, 0, 0, 0, 0, 0, 0, 0x2).is_loopback(), false);
}

#[test]
fn ipv6_is_global() {
    assert_eq!(A6::new(0, 0, 0, 0, 0, 0xffff, 0xc00a, 0x2ff).is_global(), true);
    assert_eq!(A6::new(0, 0, 0, 0, 0, 0, 0, 0x1).is_global(), false);
    assert_eq!(A6::new(0, 0, 0x1c9, 0, 0, 0xafc8, 0, 0x1).is_global(), true);
    assert_eq!(A6::new(0xff0e, 0, 0, 0, 0, 0, 0, 0).is_global(), true);
    assert_eq!(A6::new(0xff02, 0, 0, 0, 0, 0, 0, 0).is_global(), false);
    assert_eq!(A6::new(0xff00, 0, 0, 0, 0, 0, 0, 0).is_global(), false);
    assert_eq!(A6::new(0xfe80, 0, 0, 0, 0, 0, 0, 1).is_global(), false);
    assert_eq!(A6::new(0xfc00, 0, 0, 0, 0, 0, 0, 1).is_global(), false);
}

#[test]
fn ipv6_is_unique_local() {
    assert_eq!(A6::new(0, 0, 0, 0, 0, 0xffff, 0xc00a, 0x2ff).is_unique_local(), false);
    assert_eq!(A6::new(0xfc02, 0, 0, 0, 0, 0, 0, 0).is_unique_local(), true);
    assert_eq!(A6::new(0xfdff, 0, 0, 0, 0, 0, 0, 0).is_unique_local(), true);
    assert_eq!(A6::new(0xfe00, 0, 0, 0, 0, 0, 0, 0).is_unique_local(), false);
    assert_eq!(A6::new(0xfbff, 0, 0, 0, 0, 0, 0, 0).is_unique_local(), false);
}

#[test]
fn ipv6_is_unicast_link_local_strict() {
    let ip = A6::new(0xfe80, 0, 0, 0, 0, 0, 0, 0);
    assert!(ip.is_unicast_link_local_strict());
    let ip = A6::new(0xfe80, 0, 0, 0, 0xffff, 0xffff, 0xffff, 0xffff);
    assert!(ip.is_unicast_link_local_strict());
    let ip = A6::new(0xfe80, 0, 0, 1, 0, 0, 0, 0);
    assert!(!ip.is_unicast_link_local_strict());
    assert!(ip.is_unicast_link_local());
    let ip = A6::new(0xfe81, 0, 0, 0, 0, 0, 0, 0);
    assert!(!ip.is_unicast_link_local_strict());
    assert!(ip.is_unicast_link_local());
}

#[test]
fn ipv6_is_unicast_link_local() {
    let ip = A6::new(0xfe80, 0, 0, 0, 0, 0, 0, 0);
    assert!(ip.is_unicast_link_local());
    let ip = A6::new(0xfe80, 0, 0, 0, 0xffff, 0xffff, 0xffff, 0xffff);
    assert!(ip.is_unicast_link_local());
    let ip = A6::new(0xfebf, 0, 0, 1, 0, 0, 0, 0);
    assert!(ip.is_unicast_link_local());
    let ip = A6::new(0xfec0, 0, 0, 0, 0, 0, 0, 0);
    assert!(!ip.is_unicast_link_local());
    let ip = A6::new(0xfe7f, 0, 0, 0, 0, 0, 0, 0);
    assert!(!ip.is_unicast_link_local());
}

#[test]
fn ipv6_is_unicast_site_local() {
    assert_eq!(A6::new(0, 0, 0, 0, 0, 0xffff, 0xc00a, 0x2ff).is_unicast_site_local(), false);
    assert_eq!(A6::new(0xfec2, 0, 0, 0, 0, 0, 0, 0).is_unicast_site_local(), true);
    assert_eq!(A6::new(0xfeff, 0, 0, 0, 0, 0, 0, 0).is_unicast_site_local(), true);
    assert_eq!(A6::new(0xfebf, 0, 0, 0, 0, 0, 0, 0).is_unicast_site_local(), false);
    assert_eq!(A6::new(0xff00, 0, 0, 0, 0, 0, 0, 0).is_unicast_site_local(), false);
}

#[test]
fn ipv6_is_documentation() {
    assert_eq!(A6::new(0, 0, 0, 0, 0, 0xffff, 0xc00a, 0x2ff).is_documentation(), false);
    assert_eq!(A6::new(0x2001, 0xdb8, 0, 0, 0, 0, 0, 0).is_documentation(), true);
    assert_eq!(A6::new(0x2001, 0xdb9, 0, 0, 0, 0, 0, 0).is_documentation(), false);
}

#[test]
fn ipv6_is_unicast_global() {
    assert_eq!(A6::new(0x2001, 0xdb8, 0, 0, 0, 0, 0, 0).is_unicast_global(), false);
    assert_eq!(A6::new(0, 0, 0, 0, 0, 0xffff, 0xc00a, 0x2ff).is_unicast_global(), true);
    assert_eq!(A6::new(0xfec0, 0, 0, 0, 0, 0, 0, 0).is_unicast_global(), true);
    assert_eq!(A6::new(0xff0e, 0, 0, 0, 0, 0, 0, 0).is_unicast_global(), false);
    assert_eq!(A6::new(0, 0, 0, 0, 0, 0, 0, 0).is_unicast_global(), false);
    assert_eq!(A6::new(0, 0, 0, 0, 0, 0, 0, 1).is_unicast_global(), false);
}

#[test]
fn ipv6_multicast_scope() {
    assert_eq!(
        A6::new(0xff0e, 0, 0, 0, 0, 0, 0, 0).multicast_scope(),
        Some(Ipv6MulticastScope::Global)
    );
    assert_eq!(A6::new(0, 0, 0, 0, 0, 0xffff, 0xc00a, 0x2ff).multicast_scope(), None);
}

#[test]
fn ipv6_multicast_scope_of_every_nibble() {
    let expected = [
        None,
        Some(Ipv6MulticastScope::InterfaceLocal),
        Some(Ipv6MulticastScope::LinkLocal),
        Some(Ipv6MulticastScope::RealmLocal),
        Some(Ipv6MulticastScope::AdminLocal),
        Some(Ipv6MulticastScope::SiteLocal),
        None,
        None,
        Some(Ipv6MulticastScope::OrganizationLocal),
        None,
        None,
        None,
        None,
        None,
        Some(Ipv6MulticastScope::Global),
        None,
    ];
    for n in 0..16u16 {
        assert_eq!(A6::new(0xff00 + n, 0, 0, 0, 0, 0, 0, 7).multicast_scope(), expected[n as usize]);
        assert_eq!(A6::new(0xffa0 + n, 0, 0, 0, 0, 0, 0, 7).multicast_scope(), expected[n as usize]);
        assert_eq!(A6::new(0xfe00 + n, 0, 0, 0, 0, 0, 0, 7).multicast_scope(), None);
    }
}

#[test]
fn ipv6_is_multicast() {
    assert_eq!(A6::new(0xff00, 0, 0, 0, 0, 0, 0, 0).is_multicast(), true);
    assert_eq!(A6::new(0, 0, 0, 0, 0, 0xffff, 0xc00a, 0x2ff).is_multicast(), false);
    assert_eq!(A6::new(0xfeff, 0, 0, 0, 0, 0, 0, 0).is_multicast(), false);
    assert_eq!(A6::new(0xffff, 0, 0, 0, 0, 0, 0, 0).is_multicast(), true);
}

#[test]
fn ipv6_to_ipv4() {
    assert_eq!(A6::new(0xff00, 0, 0, 0, 0, 0, 0, 0).to_ipv4::<Ipv4AddrInner>(), None);
    assert_eq!(
        A6::new(0, 0, 0, 0, 0, 0xffff, 0xc00a, 0x2ff).to_ipv4(),
        Some(A4::new(192, 10, 2, 255))
    );
    assert_eq!(A6::new(0, 0, 0, 0, 0, 0, 0, 1).to_ipv4(), Some(A4::new(0, 0, 0, 1)));
    assert_eq!(A6::new(0, 0, 0, 0, 0, 1, 0, 1).to_ipv4::<Ipv4AddrInner>(), None);
    assert_eq!(A6::new(0, 0, 0, 0, 1, 0, 0, 1).to_ipv4::<Ipv4AddrInner>(), None);
    assert_eq!(A6::new(0, 0, 0, 0, 0, 0xfffe, 0, 1).to_ipv4::<Ipv4AddrInner>(), None);
}

#[test]
fn ipv6_octets() {
    assert_eq!(
        A6::new(0xff00, 0, 0, 0, 0, 0, 0, 0).octets(),
        [255, 0, 0, 0, 0, 0, 0, 0, 0, 0, 0, 0, 0, 0, 0, 0]
    );
    assert_eq!(
        A6::new(0x0102, 0x0304, 0x0506, 0x0708, 0x090a, 0x0b0c, 0x0d0e, 0x0f10).octets(),
        [1, 2, 3, 4, 5, 6, 7, 8, 9, 10, 11, 12, 13, 14, 15, 16]
    );
}

#[test]
fn ipv6_from_octets() {
    let addr = A6::from([
        25u8, 24u8, 23u8, 22u8, 21u8, 20u8, 19u8, 18u8, 17u8, 16u8, 15u8, 14u8, 13u8, 12u8, 11u8,
        10u8,
    ]);
    assert_eq!(A6::new(0x1918, 0x1716, 0x1514, 0x1312, 0x1110, 0x0f0e, 0x0d0c, 0x0b0a), addr);
    assert_eq!(A6::from(addr.octets()), addr);
}

#[test]
fn ipv6_from_segments() {
    let addr = A6::from([525u16, 524u16, 523u16, 522u16, 521u16, 520u16, 519u16, 518u16]);
    assert_eq!(A6::new(0x20d, 0x20c, 0x20b, 0x20a, 0x209, 0x208, 0x207, 0x206), addr);
}

#[test]
fn ipv6_to_u128() {
    let addr = A6::new(0x1020, 0x3040, 0x5060, 0x7080, 0x90A0, 0xB0C0, 0xD0E0, 0xF00D);
    assert_eq!(0x102030405060708090A0B0C0D0E0F00D_u128, u128::from(addr));
    assert_eq!(0x102030405060708090A0B0C0D0E0F00D_u128, addr.to_u128());
}

#[test]
fn ipv6_from_u128() {
    let addr = A6::from(0x102030405060708090A0B0C0D0E0F00D_u128);
    assert_eq!(A6::new(0x1020, 0x3040, 0x5060, 0x7080, 0x90A0, 0xB0C0, 0xD0E0, 0xF00D), addr);
    assert_eq!(A6::from_u128(1), A6::localhost());
}

#[test]
fn ipv6_u128_round_trip() {
    for s in [
        [0u16, 0, 0, 0, 0, 0, 0, 0],
        [1, 2, 3, 4, 5, 6, 7, 8],
        [0xffff, 0xffff, 0xffff, 0xffff, 0xffff, 0xffff, 0xffff, 0xffff],
        [0x2001, 0xdb8, 0, 0, 0, 0, 0, 1],
    ] {
        let x = A6::from(s);
        assert_eq!(A6::from(u128::from(x)), x);
    }
    for n in [0u128, 1, 0xffff, 0x1_0000, u128::MAX, 0xdead_beef_0000_0000_0000_0000_0000_0001] {
        assert_eq!(u128::from(A6::from(n)), n);
    }
}

#[test]
fn ipv6_equality_is_by_segments() {
    assert!(A6::new(1, 2, 3, 4, 5, 6, 7, 8) == A6::from([1, 2, 3, 4, 5, 6, 7, 8]));
    assert!(A6::new(1, 2, 3, 4, 5, 6, 7, 8) != A6::new(1, 2, 3, 4, 5, 6, 7, 9));
    assert!(A6::new(1, 2, 3, 4, 5, 6, 7, 8) != A6::new(0, 2, 3, 4, 5, 6, 7, 8));
}

#[test]
fn ipv6_order_is_lexicographic() {
    assert!(A6::new(1, 2, 3, 4, 5, 6, 7, 8) < A6::new(1, 2, 3, 4, 5, 6, 7, 9));
    assert!(A6::new(1, 0xffff, 0, 0, 0, 0, 0, 0) < A6::new(2, 0, 0, 0, 0, 0, 0, 0));
    assert!(A6::new(2, 0, 0, 0, 0, 0, 0, 0) > A6::new(1, 0xffff, 0xffff, 0, 0, 0, 0, 0));
    assert!(A6::new(0x100, 0, 0, 0, 0, 0, 0, 0) > A6::new(0xff, 0, 0, 0, 0, 0, 0, 0));
    assert!(A6::new(9, 9, 9, 9, 9, 9, 9, 9) <= A6::new(9, 9, 9, 9, 9, 9, 9, 9));
    assert!(A6::new(0, 0, 0, 0, 0, 0, 0, 1).precedes(&A6::new(0, 0, 0, 0, 0, 0, 0, 2)));
    assert!(!A6::new(0, 0, 0, 0, 0, 0, 0, 2).precedes(&A6::new(0, 0, 0, 0, 0, 0, 0, 2)));
}
