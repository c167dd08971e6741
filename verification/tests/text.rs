use addr_hal::text::find_zero_run;
use addr_hal::text::ipv4_to_string;
use addr_hal::text::ipv6_to_string;
use addr_hal::text::push_decimal;
use addr_hal::text::push_dotted_quad;
use addr_hal::text::push_hex_groups;
use addr_hal::text::push_lower_hex;
use addr_hal::text::push_port;
use addr_hal::Ipv6Addr;
use addr_hal::Ipv6AddrInner;

type A6 = Ipv6Addr<Ipv6AddrInner>;

#[test]
fn decimal_digits() {
    for n in [0u16, 1, 9, 10, 11, 99, 100, 101, 255, 256, 999, 1000, 8080, 9999, 10000, 65535] {
        let mut out = String::from("x");
        push_decimal(&mut out, n);
        assert_eq!(out, format!("x{}", n));
    }
}

#[test]
fn hexadecimal_digits() {
    for n in [0u16, 1, 9, 10, 15, 16, 17, 0xff, 0x100, 0xabc, 0xfff, 0x1000, 0xdb8, 0xffff] {
        let mut out = String::from("x");
        push_lower_hex(&mut out, n);
        assert_eq!(out, format!("x{:x}", n));
    }
}

#[test]
fn dotted_quad() {
    let mut out = String::new();
    push_dotted_quad(&mut out, 192, 0, 2, 255);
    assert_eq!(out, "192.0.2.255");
}

#[test]
fn hex_groups_of_a_range() {
    let s = [0x2001u16, 0xdb8, 0, 1, 0xffff, 0xa, 0x10, 0];
    let mut out = String::new();
    push_hex_groups(&mut out, &s, 0, 8);
    assert_eq!(out, "2001:db8:0:1:ffff:a:10:0");
    let mut out = String::new();
    push_hex_groups(&mut out, &s, 2, 5);
    assert_eq!(out, "0:1:ffff");
    let mut out = String::from("kept");
    push_hex_groups(&mut out, &s, 3, 3);
    assert_eq!(out, "kept");
    let mut out = String::new();
    push_hex_groups(&mut out, &s, 7, 8);
    assert_eq!(out, "0");
}

#[test]
fn port_after_a_colon() {
    let mut out = String::from("host");
    push_port(&mut out, 8080);
    assert_eq!(out, "host:8080");
    let mut out = String::new();
    push_port(&mut out, 0);
    assert_eq!(out, ":0");
}

#[test]
fn longest_zero_run() {
    assert_eq!(find_zero_run(&[1, 2, 3, 4, 5, 6, 7, 8]), (0, 0));
    assert_eq!(find_zero_run(&[0, 0, 0, 0, 0, 0, 0, 0]), (0, 8));
    assert_eq!(find_zero_run(&[0, 0, 0, 0, 1, 0, 0, 1]), (0, 4));
    assert_eq!(find_zero_run(&[1, 0, 0, 1, 0, 0, 0, 1]), (4, 3));
    assert_eq!(find_zero_run(&[1, 0, 1, 0, 1, 0, 1, 0]), (1, 1));
    assert_eq!(find_zero_run(&[1, 1, 1, 1, 1, 1, 1, 0]), (7, 1));
    assert_eq!(find_zero_run(&[1, 1, 1, 1, 1, 1, 0, 0]), (6, 2));
}

#[test]
fn longest_zero_run_takes_the_first_of_equal_runs() {
    assert_eq!(find_zero_run(&[1, 0, 0, 1, 0, 0, 1, 1]), (1, 2));
    assert_eq!(find_zero_run(&[0, 0, 1, 0, 0, 1, 0, 0]), (0, 2));
    assert_eq!(find_zero_run(&[0, 0, 0, 1, 1, 0, 0, 0]), (0, 3));
}

#[test]
fn ipv4_text_of_octets() {
    assert_eq!(ipv4_to_string(&[0, 0, 0, 0]), "0.0.0.0");
    assert_eq!(ipv4_to_string(&[8, 80, 180, 255]), "8.80.180.255");
}

#[test]
fn ipv6_text_special_forms() {
    assert_eq!(A6::new(0, 0, 0, 0, 0, 0, 0, 0).to_string(), "::");
    assert_eq!(A6::new(0, 0, 0, 0, 0, 0, 0, 1).to_string(), "::1");
    assert_eq!(A6::new(0, 0, 0, 0, 0, 0, 0, 2).to_string(), "::0.0.0.2");
    assert_eq!(A6::new(0, 0, 0, 0, 0, 0, 0xc000, 0x2ff).to_string(), "::192.0.2.255");
    assert_eq!(A6::new(0, 0, 0, 0, 0, 0xffff, 0xc00a, 0x2ff).to_string(), "::ffff:192.10.2.255");
    assert_eq!(A6::new(0, 0, 0, 0, 0, 0xffff, 0, 0).to_string(), "::ffff:0.0.0.0");
}

#[test]
fn ipv6_text_compresses_the_first_longest_run() {
    assert_eq!(A6::new(0, 0, 0, 0, 1, 0, 0, 1).to_string(), "::1:0:0:1");
    assert_eq!(ipv6_to_string(&[0, 0, 0, 0, 1, 0, 0, 1]), "::1:0:0:1");
    assert_eq!(A6::new(1, 0, 0, 1, 0, 0, 0, 1).to_string(), "1:0:0:1::1");
    assert_eq!(A6::new(1, 0, 0, 1, 0, 0, 1, 1).to_string(), "1::1:0:0:1:1");
    assert_eq!(A6::new(0x2001, 0xdb8, 0, 0, 0, 0, 0, 1).to_string(), "2001:db8::1");
    assert_eq!(A6::new(0xfe80, 0, 0, 0, 0, 0, 0, 0).to_string(), "fe80::");
    assert_eq!(A6::new(0, 0, 0, 0, 0, 1, 0, 0).to_string(), "::1:0:0");
    assert_eq!(A6::new(0xff02, 0, 0, 0, 0, 0, 0, 0xfb).to_string(), "ff02::fb");
}

#[test]
fn ipv6_text_keeps_a_single_zero() {
    assert_eq!(A6::new(1, 0, 2, 0, 3, 0, 4, 0).to_string(), "1:0:2:0:3:0:4:0");
    assert_eq!(A6::new(1, 2, 3, 4, 5, 6, 7, 8).to_string(), "1:2:3:4:5:6:7:8");
    assert_eq!(
        A6::new(0xffff, 0xffff, 0xffff, 0xffff, 0xffff, 0xffff, 0xffff, 0xffff).to_string(),
        "ffff:ffff:ffff:ffff:ffff:ffff:ffff:ffff"
    );
    assert_eq!(A6::new(0xabcd, 0xef01, 0x2345, 0x6789, 0xa, 0xb0, 0xc00, 0).to_string(),
        "abcd:ef01:2345:6789:a:b0:c00:0");
}
