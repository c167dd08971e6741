use addr_hal::IpAddr;
use addr_hal::Ipv4Addr;
use addr_hal::Ipv4AddrInner;
use addr_hal::Ipv6Addr;
use addr_hal::Ipv6AddrInner;

type A4 = Ipv4Addr<Ipv4AddrInner>;
type A6 = Ipv6Addr<Ipv6AddrInner>;
type Ip = IpAddr<Ipv4AddrInner, Ipv6AddrInner>;

#[test]
fn ip_is_unspecified() {
    assert_eq!(Ip::V4(A4::new(0, 0, 0, 0)).is_unspecified(), true);
    assert_eq!(Ip::V6(A6::new(0, 0, 0, 0, 0, 0, 0, 0)).is_unspecified(), true);
    assert_eq!(Ip::V4(A4::new(0, 0, 0, 1)).is_unspecified(), false);
    assert_eq!(Ip::V6(A6::new(0, 0, 0, 0, 0, 0, 0, 1)).is_unspecified(), false);
}

#[test]
fn ip_is_loopback() {
    assert_eq!(Ip::V4(A4::new(127, 0, 0, 1)).is_loopback(), true);
    assert_eq!(Ip::V6(A6::new(0, 0, 0, 0, 0, 0, 0, 0x1)).is_loopback(), true);
    assert_eq!(Ip::V4(A4::new(126, 0, 0, 1)).is_loopback(), false);
}

#[test]
fn ip_is_global() {
    assert_eq!(Ip::V4(A4::new(80, 9, 12, 3)).is_global(), true);
    assert_eq!(Ip::V6(A6::new(0, 0, 0x1c9, 0, 0, 0xafc8, 0, 0x1)).is_global(), true);
    assert_eq!(Ip::V4(A4::new(10, 9, 12, 3)).is_global(), false);
    assert_eq!(Ip::V6(A6::new(0xfe80, 0, 0, 0, 0, 0, 0, 0x1)).is_global(), false);
}

#[test]
fn ip_is_multicast() {
    assert_eq!(Ip::V4(A4::new(224, 254, 0, 0)).is_multicast(), true);
    assert_eq!(Ip::V6(A6::new(0xff00, 0, 0, 0, 0, 0, 0, 0)).is_multicast(), true);
    assert_eq!(Ip::V4(A4::new(223, 254, 0, 0)).is_multicast(), false);
}

#[test]
fn ip_is_documentation() {
    assert_eq!(Ip::V4(A4::new(203, 0, 113, 6)).is_documentation(), true);
    assert_eq!(Ip::V6(A6::new(0x2001, 0xdb8, 0, 0, 0, 0, 0, 0)).is_documentation(), true);
    assert_eq!(Ip::V6(A6::new(0x2001, 0xdb7, 0, 0, 0, 0, 0, 0)).is_documentation(), false);
}

#[test]
fn ip_is_ipv4() {
    assert_eq!(Ip::V4(A4::new(203, 0, 113, 6)).is_ipv4(), true);
    assert_eq!(Ip::V6(A6::new(0x2001, 0xdb8, 0, 0, 0, 0, 0, 0)).is_ipv4(), false);
}

#[test]
fn ip_is_ipv6() {
    assert_eq!(Ip::V4(A4::new(203, 0, 113, 6)).is_ipv6(), false);
    assert_eq!(Ip::V6(A6::new(0x2001, 0xdb8, 0, 0, 0, 0, 0, 0)).is_ipv6(), true);
}

#[test]
fn ip_from_addresses_and_arrays() {
    assert_eq!(Ip::from(A4::new(1, 2, 3, 4)), Ip::V4(A4::new(1, 2, 3, 4)));
    assert_eq!(Ip::from(A6::new(1, 2, 3, 4, 5, 6, 7, 8)), Ip::V6(A6::new(1, 2, 3, 4, 5, 6, 7, 8)));
    assert_eq!(Ip::from([13u8, 12u8, 11u8, 10u8]), Ip::V4(A4::new(13, 12, 11, 10)));
    assert_eq!(
        Ip::from([
            25u8, 24u8, 23u8, 22u8, 21u8, 20u8, 19u8, 18u8, 17u8, 16u8, 15u8, 14u8, 13u8, 12u8,
            11u8, 10u8,
        ]),
        Ip::V6(A6::new(0x1918, 0x1716, 0x1514, 0x1312, 0x1110, 0x0f0e, 0x0d0c, 0x0b0a))
    );
    assert_eq!(
        Ip::from([525u16, 524u16, 523u16, 522u16, 521u16, 520u16, 519u16, 518u16]),
        Ip::V6(A6::new(0x20d, 0x20c, 0x20b, 0x20a, 0x209, 0x208, 0x207, 0x206))
    );
}

#[test]
fn every_ipv4_address_is_before_every_ipv6_address() {
    let v4s = [A4::new(0, 0, 0, 0), A4::new(127, 0, 0, 1), A4::new(255, 255, 255, 255)];
    let v6s = [
        A6::new(0, 0, 0, 0, 0, 0, 0, 0),
        A6::new(0, 0, 0, 0, 0, 0, 0, 1),
        A6::new(0xffff, 0xffff, 0xffff, 0xffff, 0xffff, 0xffff, 0xffff, 0xffff),
    ];
    for a in v4s {
        for b in v6s {
            assert!(Ip::V4(a) < Ip::V6(b));
            assert!(Ip::V6(b) > Ip::V4(a));
            assert!(!(Ip::V6(b) < Ip::V4(a)));
            assert!(Ip::V4(a) != Ip::V6(b));
            assert_eq!(Ip::V4(a).partial_cmp(&Ip::V6(b)), Some(std::cmp::Ordering::Less));
            assert!(Ip::V4(a) < b);
            assert!(Ip::V6(b) > a);
        }
    }
}

#[test]
fn ip_order_within_a_family() {
    assert!(Ip::V4(A4::new(1, 2, 3, 4)) < Ip::V4(A4::new(1, 2, 3, 5)));
    assert!(Ip::V6(A6::new(0, 0, 0, 0, 0, 0, 0, 1)) < Ip::V6(A6::new(0, 0, 0, 0, 0, 0, 1, 0)));
    assert!(Ip::V4(A4::new(1, 2, 3, 4)) == Ip::V4(A4::new(1, 2, 3, 4)));
    assert!(Ip::V6(A6::new(0, 0, 0, 0, 0, 0, 0, 1)) == A6::new(0, 0, 0, 0, 0, 0, 0, 1));
    assert!(Ip::V6(A6::new(0, 0, 0, 0, 0, 0, 0, 1)) != A4::new(0, 0, 0, 1));
    assert!(Ip::V6(A6::new(0, 0, 0, 0, 0, 0, 0, 1)) < A6::new(0, 0, 0, 0, 0, 0, 0, 2));
}

#[test]
fn ip_text() {
    assert_eq!(Ip::V4(A4::new(127, 0, 0, 1)).to_string(), "127.0.0.1");
    assert_eq!(Ip::V6(A6::new(0, 0, 0, 0, 0, 0, 0, 1)).to_string(), "::1");
}
