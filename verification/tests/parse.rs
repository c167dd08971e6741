use addr_hal::parse::chars_of;
use addr_hal::parse::dotted_quad_octets;
use addr_hal::parse::ipv6_segments;
use addr_hal::AddrParseError;
use addr_hal::IpAddr;
use addr_hal::Ipv4Addr;
use addr_hal::Ipv4AddrInner;
use addr_hal::Ipv6Addr;
use addr_hal::Ipv6AddrInner;

type Quad = Ipv4Addr<Ipv4AddrInner>;
type Hex = Ipv6Addr<Ipv6AddrInner>;
type Any = IpAddr<Ipv4AddrInner, Ipv6AddrInner>;

#[test]
fn test_ipv4() {
    let localhost = Ipv4Addr::<Ipv4AddrInner>::new(127, 0, 0, 1);
    assert_eq!("127.0.0.1".parse(), Ok(localhost));
}

#[test]
fn test_ipv6_from_str() {
    let localhost = Ipv6Addr::<Ipv6AddrInner>::new(0, 0, 0, 0, 0, 0, 0, 1);
    assert_eq!("::1".parse(), Ok(localhost));
}

#[test]
fn test_ip_from_str() {
    let localhost_v4 = Any::V4(Quad::new(127, 0, 0, 1));
    let localhost_v6 = Any::V6(Hex::new(0, 0, 0, 0, 0, 0, 0, 1));
    assert_eq!("127.0.0.1".parse(), Ok(localhost_v4));
    assert_eq!("::1".parse(), Ok(localhost_v6));
    assert_eq!("localhost".parse::<Any>(), Err(AddrParseError::Ip));
    assert_eq!("".parse::<Any>(), Err(AddrParseError::Ip));
}

#[test]
fn characters_of_a_string() {
    assert_eq!(chars_of(""), Vec::<char>::new());
    assert_eq!(chars_of("a.b"), vec!['a', '.', 'b']);
    assert_eq!(chars_of("é:1"), vec!['é', ':', '1']);
}

#[test]
fn ipv4_texts_that_are_read() {
    assert_eq!(Quad::from_text("0.0.0.0"), Ok(Quad::new(0, 0, 0, 0)));
    assert_eq!(Quad::from_text("255.255.255.255"), Ok(Quad::new(255, 255, 255, 255)));
    assert_eq!(Quad::from_text("1.20.103.9"), Ok(Quad::new(1, 20, 103, 9)));
    assert_eq!(Quad::from_text("192.168.0.1"), Ok(Quad::new(192, 168, 0, 1)));
}

#[test]
fn ipv4_texts_that_are_refused() {
    for text in [
        "",
        ".",
        "...",
        "1.2.3",
        "1.2.3.4.5",
        "1..2.3",
        ".1.2.3",
        "1.2.3.",
        "256.0.0.1",
        "1.2.3.256",
        "1.2.3.1000",
        "01.2.3.4",
        "1.2.3.04",
        "00.0.0.0",
        "1.2.3.4 ",
        " 1.2.3.4",
        "a.b.c.d",
        "1.2.3.-4",
        "1.2.3.+4",
        "1.2.3.４",
        "1:2:3:4",
        "::1",
        "0x1.2.3.4",
    ] {
        assert_eq!(Quad::from_text(text), Err(AddrParseError::Ipv4), "{}", text);
    }
}

#[test]
fn dotted_quad_inside_a_text() {
    let t = chars_of("::ffff:10.0.0.7");
    assert_eq!(dotted_quad_octets(&t, 7, 15), Some([10, 0, 0, 7]));
    assert_eq!(dotted_quad_octets(&t, 6, 15), None);
    assert_eq!(dotted_quad_octets(&t, 7, 14), None);
    assert_eq!(dotted_quad_octets(&t, 7, 7), None);
}

#[test]
fn ipv6_texts_that_are_read() {
    assert_eq!(Hex::from_text("::"), Ok(Hex::new(0, 0, 0, 0, 0, 0, 0, 0)));
    assert_eq!(Hex::from_text("::1"), Ok(Hex::new(0, 0, 0, 0, 0, 0, 0, 1)));
    assert_eq!(Hex::from_text("1::"), Ok(Hex::new(1, 0, 0, 0, 0, 0, 0, 0)));
    assert_eq!(Hex::from_text("2001:db8::1"), Ok(Hex::new(0x2001, 0xdb8, 0, 0, 0, 0, 0, 1)));
    assert_eq!(Hex::from_text("1:2:3:4:5:6:7:8"), Ok(Hex::new(1, 2, 3, 4, 5, 6, 7, 8)));
    assert_eq!(Hex::from_text("1:2:3:4:5:6:7::"), Ok(Hex::new(1, 2, 3, 4, 5, 6, 7, 0)));
    assert_eq!(Hex::from_text("::2:3:4:5:6:7:8"), Ok(Hex::new(0, 2, 3, 4, 5, 6, 7, 8)));
    assert_eq!(Hex::from_text("1:2:3::6:7:8"), Ok(Hex::new(1, 2, 3, 0, 0, 6, 7, 8)));
    assert_eq!(
        Hex::from_text("ffff:ffff:ffff:ffff:ffff:ffff:ffff:ffff"),
        Ok(Hex::new(0xffff, 0xffff, 0xffff, 0xffff, 0xffff, 0xffff, 0xffff, 0xffff))
    );
}

#[test]
fn ipv6_texts_with_a_dotted_quad() {
    assert_eq!(Hex::from_text("::192.0.2.255"), Ok(Hex::new(0, 0, 0, 0, 0, 0, 0xc000, 0x2ff)));
    assert_eq!(
        Hex::from_text("::ffff:192.10.2.255"),
        Ok(Hex::new(0, 0, 0, 0, 0, 0xffff, 0xc00a, 0x2ff))
    );
    assert_eq!(
        Hex::from_text("1:2:3:4:5:6:1.2.3.4"),
        Ok(Hex::new(1, 2, 3, 4, 5, 6, 0x0102, 0x0304))
    );
    assert_eq!(Hex::from_text("64:ff9b::10.0.0.1"), Ok(Hex::new(0x64, 0xff9b, 0, 0, 0, 0, 0xa00, 1)));
}

#[test]
fn ipv6_texts_in_other_than_canonical_form() {
    assert_eq!(Hex::from_text("2001:DB8::A"), Ok(Hex::new(0x2001, 0xdb8, 0, 0, 0, 0, 0, 0xa)));
    assert_eq!(Hex::from_text("0001::0002"), Ok(Hex::new(1, 0, 0, 0, 0, 0, 0, 2)));
    assert_eq!(Hex::from_text("0:0:0:0:0:0:0:1"), Ok(Hex::new(0, 0, 0, 0, 0, 0, 0, 1)));
    assert_eq!(Hex::from_text("1:0:0:0::1"), Ok(Hex::new(1, 0, 0, 0, 0, 0, 0, 1)));
    assert_eq!(Hex::from_text("aBcD::Ef"), Ok(Hex::new(0xabcd, 0, 0, 0, 0, 0, 0, 0xef)));
}

#[test]
fn ipv6_texts_that_are_refused() {
    for text in [
        "",
        ":",
        ":::",
        "::::",
        ":1",
        "1:",
        "::1:",
        ":1::",
        "1:2:3:4:5:6:7",
        "1:2:3:4:5:6:7:8:9",
        "1:2:3:4:5:6:7::8",
        "::1:2:3:4:5:6:7:8",
        "1::2::3",
        "12345::",
        "::12345",
        "g::",
        "::g",
        "1.2.3.4",
        "1.2.3.4::",
        "::1.2.3.4:5",
        "::1.2.3",
        "::1.2.3.256",
        "1:2:3:4:5:6:7:1.2.3.4",
        "1:2:3:4:5:1.2.3.4",
        "::ffff:1.2.3.4.5",
        " ::1",
        "::1 ",
        "::é",
        "[::1]",
    ] {
        assert_eq!(Hex::from_text(text), Err(AddrParseError::Ipv6), "{}", text);
    }
}

#[test]
fn ipv6_segments_of_characters() {
    assert_eq!(ipv6_segments(&chars_of("fe80::1")), Some([0xfe80, 0, 0, 0, 0, 0, 0, 1]));
    assert_eq!(ipv6_segments(&chars_of("fe80:1")), None);
}

#[test]
fn ipv6_text_with_very_many_colons_is_refused() {
    let text = ":1".repeat(100_000);
    assert_eq!(Hex::from_text(&text), Err(AddrParseError::Ipv6));
    let text = format!("::{}", "1:".repeat(100_000));
    assert_eq!(Hex::from_text(&text), Err(AddrParseError::Ipv6));
}

#[test]
fn ipv4_text_is_read_back() {
    for o in [
        [0u8, 0, 0, 0],
        [127, 0, 0, 1],
        [255, 255, 255, 255],
        [1, 20, 103, 9],
        [10, 100, 200, 99],
        [192, 0, 0, 9],
    ] {
        let x = Quad::from(o);
        assert_eq!(Quad::from_text(&x.to_string()), Ok(x));
        assert_eq!(Any::from_text(&Any::V4(x).to_string()), Ok(Any::V4(x)));
    }
}

#[test]
fn ipv6_text_is_read_back() {
    for s in [
        [0u16, 0, 0, 0, 0, 0, 0, 0],
        [0, 0, 0, 0, 0, 0, 0, 1],
        [0, 0, 0, 0, 0, 0, 0, 2],
        [0, 0, 0, 0, 0, 0, 0xc000, 0x2ff],
        [0, 0, 0, 0, 0, 0xffff, 0xc00a, 0x2ff],
        [0, 0, 0, 0, 0, 0xfffe, 0xc00a, 0x2ff],
        [0, 0, 0, 0, 1, 0, 0, 1],
        [1, 0, 0, 1, 0, 0, 0, 1],
        [1, 0, 0, 1, 0, 0, 1, 1],
        [0x2001, 0xdb8, 0, 0, 0, 0, 0, 1],
        [1, 0, 2, 0, 3, 0, 4, 0],
        [0xfe80, 0, 0, 0, 0, 0, 0, 0],
        [1, 2, 3, 4, 5, 6, 7, 8],
        [0, 2, 3, 4, 5, 6, 7, 8],
        [1, 2, 3, 4, 5, 6, 7, 0],
        [1, 2, 3, 4, 5, 6, 0, 0],
        [0xffff, 0xffff, 0xffff, 0xffff, 0xffff, 0xffff, 0xffff, 0xffff],
        [0xabcd, 0xef01, 0x2345, 0x6789, 0xa, 0xb0, 0xc00, 0],
    ] {
        let x = Hex::from(s);
        assert_eq!(Hex::from_text(&x.to_string()), Ok(x));
        assert_eq!(Any::from_text(&Any::V6(x).to_string()), Ok(Any::V6(x)));
    }
}

#[test]
fn every_text_of_a_small_ipv6_address_is_read_back() {
    for bits in 0u32..256 {
        let mut s = [0u16; 8];
        for i in 0..8 {
            if bits & (1 << i) != 0 {
                s[i] = 0x10 + i as u16;
            }
        }
        let x = Hex::from(s);
        assert_eq!(Hex::from_text(&x.to_string()), Ok(x));
    }
}
