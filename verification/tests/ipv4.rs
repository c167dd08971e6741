use addr_hal::IpAddr;
use addr_hal::Ipv4Addr;
use addr_hal::Ipv4AddrInner;
use addr_hal::Ipv6Addr;
use addr_hal::Ipv6AddrInner;

type V4 = Ipv4Addr<Ipv4AddrInner>;
type V6 = Ipv6Addr<Ipv6AddrInner>;
type Ip = IpAddr<Ipv4AddrInner, Ipv6AddrInner>;

#[test]
fn new_then_octets_gives_the_octets() {
    assert_eq!(V4::new(127, 0, 0, 1).octets(), [127, 0, 0, 1]);
    assert_eq!(V4::new(1, 2, 3, 4).octets(), [1, 2, 3, 4]);
    assert_eq!(V4::new(255, 0, 255, 0).octets(), [255, 0, 255, 0]);
    for o in [[0u8, 0, 0, 0], [9, 8, 7, 6], [255, 255, 255, 255], [192, 168, 1, 77]] {
        assert_eq!(V4::new(o[0], o[1], o[2], o[3]).octets(), o);
    }
}

#[test]
fn ipv4_constants() {
    assert_eq!(V4::localhost(), V4::new(127, 0, 0, 1));
    assert_eq!(V4::unspecified(), V4::new(0, 0, 0, 0));
    assert_eq!(V4::broadcast(), V4::new(255, 255, 255, 255));
}

#[test]
fn ipv4_from_array() {
    let addr = V4::from([13u8, 12u8, 11u8, 10u8]);
    assert_eq!(V4::new(13, 12, 11, 10), addr);
}

#[test]
fn ipv4_from_u32() {
    let addr = V4::from(0x0d0c0b0au32);
    assert_eq!(V4::new(13, 12, 11, 10), addr);
    assert_eq!(V4::from_u32(0x0d0c0b0a), addr);
    assert_eq!(V4::from(0u32), V4::unspecified());
    assert_eq!(V4::from(u32::MAX), V4::broadcast());
}

#[test]
fn ipv4_to_u32() {
    let addr = V4::new(13, 12, 11, 10);
    assert_eq!(0x0d0c0b0au32, u32::from(addr));
    assert_eq!(0x0d0c0b0au32, addr.to_u32());
    assert_eq!(u32::from(V4::new(0, 0, 0, 1)), 1);
    assert_eq!(u32::from(V4::new(1, 0, 0, 0)), 0x0100_0000);
}

#[test]
fn ipv4_u32_round_trip() {
    for o in [[0u8, 0, 0, 0], [1, 2, 3, 4], [127, 0, 0, 1], [255, 255, 255, 255], [10, 0, 255, 9]] {
        let x = V4::from(o);
        assert_eq!(V4::from(u32::from(x)), x);
    }
    for n in [0u32, 1, 255, 256, 0x7f00_0001, 0xdead_beef, u32::MAX] {
        assert_eq!(u32::from(V4::from(n)), n);
    }
}

#[test]
fn ipv4_is_benchmarking() {
    assert_eq!(V4::new(198, 17, 255, 255).is_benchmarking(), false);
    assert_eq!(V4::new(198, 18, 0, 0).is_benchmarking(), true);
    assert_eq!(V4::new(198, 19, 255, 255).is_benchmarking(), true);
    assert_eq!(V4::new(198, 20, 0, 0).is_benchmarking(), false);
    assert_eq!(V4::new(197, 18, 0, 0).is_benchmarking(), false);
}

#[test]
fn ipv4_is_broadcast() {
    assert_eq!(V4::new(255, 255, 255, 255).is_broadcast(), true);
    assert_eq!(V4::new(236, 168, 10, 65).is_broadcast(), false);
    assert_eq!(V4::new(255, 255, 255, 254).is_broadcast(), false);
}

#[test]
fn ipv4_is_documentation() {
    assert_eq!(V4::new(192, 0, 2, 255).is_documentation(), true);
    assert_eq!(V4::new(198, 51, 100, 65).is_documentation(), true);
    assert_eq!(V4::new(203, 0, 113, 6).is_documentation(), true);
    assert_eq!(V4::new(193, 34, 17, 19).is_documentation(), false);
    assert_eq!(V4::new(192, 0, 3, 0).is_documentation(), false);
}

#[test]
fn ipv4_is_global() {
    assert_eq!(V4::new(10, 254, 0, 0).is_global(), false);
    assert_eq!(V4::new(192, 168, 10, 65).is_global(), false);
    assert_eq!(V4::new(172, 16, 10, 65).is_global(), false);
    assert_eq!(V4::new(0, 1, 2, 3).is_global(), false);
    assert_eq!(V4::new(0, 0, 0, 0).is_global(), false);
    assert_eq!(V4::new(127, 0, 0, 1).is_global(), false);
    assert_eq!(V4::new(169, 254, 45, 1).is_global(), false);
    assert_eq!(V4::new(255, 255, 255, 255).is_global(), false);
    assert_eq!(V4::new(192, 0, 2, 255).is_global(), false);
    assert_eq!(V4::new(198, 51, 100, 65).is_global(), false);
    assert_eq!(V4::new(203, 0, 113, 6).is_global(), false);
    assert_eq!(V4::new(100, 100, 0, 0).is_global(), false);
    assert_eq!(V4::new(192, 0, 0, 0).is_global(), false);
    assert_eq!(V4::new(192, 0, 0, 255).is_global(), false);
    assert_eq!(V4::new(250, 10, 20, 30).is_global(), false);
    assert_eq!(V4::new(198, 18, 0, 0).is_global(), false);
    assert_eq!(V4::new(1, 1, 1, 1).is_global(), true);
    assert_eq!(V4::new(80, 9, 12, 3).is_global(), true);
}

#[test]
fn ipv4_is_global_exceptions_inside_protocol_assignment() {
    assert_eq!(V4::new(192, 0, 0, 9).is_global(), true);
    assert_eq!(V4::new(192, 0, 0, 10).is_global(), true);
    assert_eq!(V4::new(192, 0, 0, 9).is_ietf_protocol_assignment(), true);
    assert_eq!(V4::new(192, 0, 0, 10).is_ietf_protocol_assignment(), true);
    assert_eq!(V4::new(192, 0, 0, 8).is_global(), false);
    assert_eq!(V4::new(192, 0, 0, 11).is_global(), false);
}

#[test]
fn ipv4_is_ietf_protocol_assignment() {
    assert_eq!(V4::new(192, 0, 0, 0).is_ietf_protocol_assignment(), true);
    assert_eq!(V4::new(192, 0, 0, 8).is_ietf_protocol_assignment(), true);
    assert_eq!(V4::new(192, 0, 0, 9).is_ietf_protocol_assignment(), true);
    assert_eq!(V4::new(192, 0, 0, 255).is_ietf_protocol_assignment(), true);
    assert_eq!(V4::new(192, 0, 1, 0).is_ietf_protocol_assignment(), false);
    assert_eq!(V4::new(191, 255, 255, 255).is_ietf_protocol_assignment(), false);
}

#[test]
fn ipv4_is_link_local() {
    assert_eq!(V4::new(169, 254, 0, 0).is_link_local(), true);
    assert_eq!(V4::new(169, 254, 10, 65).is_link_local(), true);
    assert_eq!(V4::new(16, 89, 10, 65).is_link_local(), false);
    assert_eq!(V4::new(169, 253, 0, 0).is_link_local(), false);
}

#[test]
fn ipv4_is_loopback() {
    assert_eq!(V4::new(127, 0, 0, 1).is_loopback(), true);
    assert_eq!(V4::new(127, 255, 255, 255).is_loopback(), true);
    assert_eq!(V4::new(45, 22, 13, 197).is_loopback(), false);
    assert_eq!(V4::new(128, 0, 0, 1).is_loopback(), false);
}

#[test]
fn ipv4_is_multicast() {
    assert_eq!(V4::new(224, 254, 0, 0).is_multicast(), true);
    assert_eq!(V4::new(236, 168, 10, 65).is_multicast(), true);
    assert_eq!(V4::new(172, 16, 10, 65).is_multicast(), false);
    assert_eq!(V4::new(223, 255, 255, 255).is_multicast(), false);
    assert_eq!(V4::new(239, 255, 255, 255).is_multicast(), true);
    assert_eq!(V4::new(240, 0, 0, 0).is_multicast(), false);
}

#[test]
fn ipv4_is_private() {
    assert_eq!(V4::new(10, 0, 0, 1).is_private(), true);
    assert_eq!(V4::new(10, 10, 10, 10).is_private(), true);
    assert_eq!(V4::new(172, 16, 10, 10).is_private(), true);
    assert_eq!(V4::new(172, 29, 45, 14).is_private(), true);
    assert_eq!(V4::new(172, 32, 0, 2).is_private(), false);
    assert_eq!(V4::new(192, 168, 0, 2).is_private(), true);
    assert_eq!(V4::new(192, 169, 0, 2).is_private(), false);
}

#[test]
fn ipv4_is_private_at_the_edges() {
    assert_eq!(V4::new(10, 255, 255, 255).is_private(), true);
    assert_eq!(V4::new(11, 0, 0, 0).is_private(), false);
    assert_eq!(V4::new(9, 255, 255, 255).is_private(), false);
    assert_eq!(V4::new(172, 15, 255, 255).is_private(), false);
    assert_eq!(V4::new(172, 31, 255, 255).is_private(), true);
}

#[test]
fn ipv4_is_reserved() {
    assert_eq!(V4::new(240, 0, 0, 0).is_reserved(), true);
    assert_eq!(V4::new(255, 255, 255, 254).is_reserved(), true);
    assert_eq!(V4::new(239, 255, 255, 255).is_reserved(), false);
    assert_eq!(V4::new(255, 255, 255, 255).is_reserved(), false);
}

#[test]
fn ipv4_is_shared() {
    assert_eq!(V4::new(100, 64, 0, 0).is_shared(), true);
    assert_eq!(V4::new(100, 127, 255, 255).is_shared(), true);
    assert_eq!(V4::new(100, 128, 0, 0).is_shared(), false);
    assert_eq!(V4::new(100, 63, 255, 255).is_shared(), false);
    assert_eq!(V4::new(101, 64, 0, 0).is_shared(), false);
}

#[test]
fn ipv4_is_unspecified() {
    assert_eq!(V4::new(0, 0, 0, 0).is_unspecified(), true);
    assert_eq!(V4::new(45, 22, 13, 197).is_unspecified(), false);
    assert_eq!(V4::new(0, 0, 0, 1).is_unspecified(), false);
}

#[test]
fn ipv4_to_ipv6_compatible() {
    assert_eq!(
        V4::new(192, 0, 2, 255).to_ipv6_compatible::<Ipv6AddrInner>(),
        V6::new(0, 0, 0, 0, 0, 0, 49152, 767)
    );
}

#[test]
fn ipv4_to_ipv6_mapped() {
    assert_eq!(
        V4::new(192, 0, 2, 255).to_ipv6_mapped::<Ipv6AddrInner>(),
        V6::new(0, 0, 0, 0, 0, 65535, 49152, 767)
    );
}

#[test]
fn ipv4_text() {
    assert_eq!(V4::new(127, 0, 0, 1).to_string(), "127.0.0.1");
    assert_eq!(V4::new(0, 0, 0, 0).to_string(), "0.0.0.0");
    assert_eq!(V4::new(255, 255, 255, 255).to_string(), "255.255.255.255");
    assert_eq!(V4::new(1, 20, 103, 9).to_string(), "1.20.103.9");
    assert_eq!(V4::new(10, 100, 200, 99).to_string(), "10.100.200.99");
}

#[test]
fn ipv4_equality_is_by_octets() {
    assert!(V4::new(1, 2, 3, 4) == V4::from([1, 2, 3, 4]));
    assert!(V4::new(1, 2, 3, 4) != V4::new(1, 2, 3, 5));
    assert!(V4::new(1, 2, 3, 4) != V4::new(0, 2, 3, 4));
}

#[test]
fn ipv4_order_is_lexicographic() {
    assert!(V4::new(1, 2, 3, 4) < V4::new(1, 2, 3, 5));
    assert!(V4::new(1, 255, 255, 255) < V4::new(2, 0, 0, 0));
    assert!(V4::new(2, 0, 0, 0) > V4::new(1, 255, 255, 255));
    assert!(V4::new(9, 9, 9, 9) <= V4::new(9, 9, 9, 9));
    assert!(V4::new(9, 9, 9, 9) >= V4::new(9, 9, 9, 9));
    assert!(!(V4::new(9, 9, 9, 9) < V4::new(9, 9, 9, 9)));
    assert!(V4::new(0, 0, 1, 0).precedes(&V4::new(0, 0, 2, 0)));
    assert!(!V4::new(0, 0, 2, 0).precedes(&V4::new(0, 0, 1, 255)));
    assert_eq!(
        V4::new(1, 2, 3, 4).partial_cmp(&V4::new(1, 2, 3, 4)),
        Some(std::cmp::Ordering::Equal)
    );
}

#[test]
fn ipv4_compares_with_an_address_of_either_family() {
    let a = V4::new(1, 2, 3, 4);
    assert!(a == Ip::V4(V4::new(1, 2, 3, 4)));
    assert!(Ip::V4(V4::new(1, 2, 3, 4)) == a);
    assert!(a != Ip::V6(V6::new(0, 0, 0, 0, 0, 0, 0x0102, 0x0304)));
    assert!(a < Ip::V6(V6::new(0, 0, 0, 0, 0, 0, 0, 0)));
    assert!(Ip::V6(V6::new(0, 0, 0, 0, 0, 0, 0, 0)) > a);
    assert!(a < Ip::V4(V4::new(1, 2, 3, 5)));
    assert!(Ip::V4(V4::new(1, 2, 3, 3)) < a);
}

#[test]
fn ipv4_copies() {
    let a = V4::new(1, 2, 3, 4);
    let b = a;
    let c = a.clone();
    assert_eq!(a, b);
    assert_eq!(a, c);
}
