//! The canonical text of addresses: dotted decimal for IPv4, and for IPv6
//! lower-case hexadecimal groups with the longest run of zero groups
//! written as `::`.

use crate::ipv4::quad;
use crate::ipv6::{high_byte, low_byte, octo};
use vstd::prelude::*;

verus! {

/// The character that stands for the digit `d`: `0` to `9`, then `a` to `f`.
pub open spec fn digit_char(d: int) -> char {
    if d == 0 {
        '0'
    } else if d == 1 {
        '1'
    } else if d == 2 {
        '2'
    } else if d == 3 {
        '3'
    } else if d == 4 {
        '4'
    } else if d == 5 {
        '5'
    } else if d == 6 {
        '6'
    } else if d == 7 {
        '7'
    } else if d == 8 {
        '8'
    } else if d == 9 {
        '9'
    } else if d == 10 {
        'a'
    } else if d == 11 {
        'b'
    } else if d == 12 {
        'c'
    } else if d == 13 {
        'd'
    } else if d == 14 {
        'e'
    } else {
        'f'
    }
}

/// The decimal digits of `n`, most significant first, without leading zeros.
pub open spec fn decimal(n: nat) -> Seq<char>
    decreases n,
{
    if n < 10 {
        seq![digit_char(n as int)]
    } else {
        decimal(n / 10).push(digit_char((n % 10) as int))
    }
}

/// The hexadecimal digits of `n` in lower case, most significant first,
/// without leading zeros.
pub open spec fn lower_hex(n: nat) -> Seq<char>
    decreases n,
{
    if n < 16 {
        seq![digit_char(n as int)]
    } else {
        lower_hex(n / 16).push(digit_char((n % 16) as int))
    }
}

/// Four octets in decimal, joined by dots.
pub open spec fn dotted_quad(o: Seq<u8>) -> Seq<char>
    recommends
        o.len() == 4,
{
    decimal(o[0] as nat) + seq!['.'] + decimal(o[1] as nat) + seq!['.'] + decimal(o[2] as nat)
        + seq!['.'] + decimal(o[3] as nat)
}

/// Segments in hexadecimal, joined by colons; nothing for no segments.
pub open spec fn hex_groups(s: Seq<u16>) -> Seq<char>
    decreases s.len(),
{
    if s.len() == 0 {
        Seq::empty()
    } else if s.len() == 1 {
        lower_hex(s[0] as nat)
    } else {
        hex_groups(s.drop_last()) + seq![':'] + lower_hex(s.last() as nat)
    }
}

/// Whether every segment of `s` from `from` up to `to` is zero.
pub open spec fn all_zero(s: Seq<u16>, from: int, to: int) -> bool {
    forall|k: int| from <= k < to ==> s[k] == 0
}

/// Whether the `len` segments of `s` from `at` on are a longest run of zero
/// segments, and the first one of that length. Without any zero segment
/// this holds of `at == 0` and `len == 0` alone.
pub open spec fn is_longest_zero_run(s: Seq<u16>, at: int, len: int) -> bool {
    &&& 0 <= at
    &&& 0 <= len
    &&& at + len <= s.len()
    &&& all_zero(s, at, at + len)
    &&& forall|i: int, j: int| 0 <= i <= j <= s.len() && #[trigger] all_zero(s, i, j) ==> j - i <= len
    &&& forall|i: int| 0 <= i < at ==> !#[trigger] all_zero(s, i, i + len)
}

/// Where the first longest run of zero segments of `s` starts, and its length.
pub open spec fn longest_zero_run(s: Seq<u16>) -> (int, int) {
    choose|p: (int, int)| is_longest_zero_run(s, p.0, p.1)
}

/// A sequence has one first longest run of zero segments at most.
pub proof fn lemma_longest_zero_run_unique(s: Seq<u16>, at: int, len: int)
    requires
        is_longest_zero_run(s, at, len),
    ensures
        longest_zero_run(s) == (at, len),
{
    let p = longest_zero_run(s);
    assert(is_longest_zero_run(s, (at, len).0, (at, len).1));
    assert(is_longest_zero_run(s, p.0, p.1));
    assert(all_zero(s, p.0, p.0 + p.1));
    assert(all_zero(s, at, at + len));
    assert(p.1 == len);
    if p.0 < at {
        assert(!all_zero(s, p.0, p.0 + len));
    }
    if at < p.0 {
        assert(!all_zero(s, at, at + p.1));
    }
}

/// Every sequence has a first longest run of zero segments.
pub proof fn lemma_longest_zero_run_exists(s: Seq<u16>)
    ensures
        is_longest_zero_run(s, longest_zero_run(s).0, longest_zero_run(s).1),
{
    let r = lemma_run_of_prefix(s, s.len() as int);
    assert(is_longest_zero_run(s, (r.0, r.1).0, (r.0, r.1).1));
}

/// The first longest run of zero segments among the first `n` segments of
/// `s`, and the length of the run of zero segments that ends there.
proof fn lemma_run_of_prefix(s: Seq<u16>, n: int) -> (r: (int, int, int))
    requires
        0 <= n <= s.len(),
    ensures
        0 <= r.0,
        0 <= r.1,
        r.0 + r.1 <= n,
        all_zero(s, r.0, r.0 + r.1),
        forall|a: int, b: int| 0 <= a <= b <= n && #[trigger] all_zero(s, a, b) ==> b - a <= r.1,
        forall|a: int| 0 <= a < r.0 ==> !#[trigger] all_zero(s, a, a + r.1),
        0 <= r.2 <= n,
        r.2 <= r.1,
        all_zero(s, n - r.2, n),
        r.2 < n ==> s[n - r.2 - 1] != 0,
    decreases n,
{
    if n == 0 {
        (0, 0, 0)
    } else {
        let i = n - 1;
        let p = lemma_run_of_prefix(s, i);
        let (old_at, old_len, old_cur) = p;
        if s[i] == 0 {
            let cur = old_cur + 1;
            let (at, len) = if cur > old_len {
                (i + 1 - cur, cur)
            } else {
                (old_at, old_len)
            };
            assert forall|a: int, b: int| 0 <= a <= b <= n && #[trigger] all_zero(s, a, b) implies b
                - a <= len by {
                if b == n && a < i - old_cur {
                    assert(s[i - old_cur - 1] == 0);
                }
            }
            assert forall|a: int| 0 <= a < at implies !#[trigger] all_zero(s, a, a + len) by {
                if len != old_len {
                    if all_zero(s, a, a + len) {
                        assert(a + len <= i);
                    }
                }
            }
            (at, len, cur)
        } else {
            assert forall|a: int, b: int| 0 <= a <= b <= n && #[trigger] all_zero(s, a, b) implies b
                - a <= old_len by {
                if b == n && a < b {
                    assert(s[i] == 0);
                }
            }
            (old_at, old_len, 0)
        }
    }
}

/// The text of the four octets that the last two of eight segments hold.
pub open spec fn embedded_quad(s: Seq<u16>) -> Seq<char>
    recommends
        s.len() == 8,
{
    dotted_quad(quad(high_byte(s[6]), low_byte(s[6]), high_byte(s[7]), low_byte(s[7])))
}

/// The canonical text of the IPv4 address with the octets `o`: `a.b.c.d`.
pub open spec fn ipv4_text(o: Seq<u8>) -> Seq<char>
    recommends
        o.len() == 4,
{
    dotted_quad(o)
}

/// The canonical text of the IPv6 address with the segments `s`.
///
/// `::` and `::1` are written so. An address whose first five segments are
/// zero and whose sixth is zero or `ffff` ends in the dotted decimal form of
/// its last four octets, after `::` or `::ffff:`. For any other address, the
/// first longest run of zero segments becomes `::` if it has two segments
/// or more; every other segment is written in hexadecimal.
pub open spec fn ipv6_text(s: Seq<u16>) -> Seq<char>
    recommends
        s.len() == 8,
{
    if s == octo(0, 0, 0, 0, 0, 0, 0, 0) {
        seq![':', ':']
    } else if s == octo(0, 0, 0, 0, 0, 0, 0, 1) {
        seq![':', ':', '1']
    } else if all_zero(s, 0, 6) {
        seq![':', ':'] + embedded_quad(s)
    } else if all_zero(s, 0, 5) && s[5] == 0xffff {
        seq![':', ':', 'f', 'f', 'f', 'f', ':'] + embedded_quad(s)
    } else {
        let (at, len) = longest_zero_run(s);
        if len > 1 {
            hex_groups(s.subrange(0, at)) + seq![':', ':'] + hex_groups(
                s.subrange(at + len, s.len() as int),
            )
        } else {
            hex_groups(s)
        }
    }
}

/// The text of a port after an address: a colon and the port in decimal.
pub open spec fn port_suffix(port: u16) -> Seq<char> {
    seq![':'] + decimal(port as nat)
}

/// Gives the one-character text of the digit `d`.
fn digit_text(d: u8) -> (s: &'static str)
    requires
        d < 16,
    ensures
        s@ == seq![digit_char(d as int)],
{
    proof {
        reveal_strlit("0");
        reveal_strlit("1");
        reveal_strlit("2");
        reveal_strlit("3");
        reveal_strlit("4");
        reveal_strlit("5");
        reveal_strlit("6");
        reveal_strlit("7");
        reveal_strlit("8");
        reveal_strlit("9");
        reveal_strlit("a");
        reveal_strlit("b");
        reveal_strlit("c");
        reveal_strlit("d");
        reveal_strlit("e");
        reveal_strlit("f");
    }
    let s = match d {
        0 => "0",
        1 => "1",
        2 => "2",
        3 => "3",
        4 => "4",
        5 => "5",
        6 => "6",
        7 => "7",
        8 => "8",
        9 => "9",
        10 => "a",
        11 => "b",
        12 => "c",
        13 => "d",
        14 => "e",
        _ => "f",
    };
    assert(s@ =~= seq![digit_char(d as int)]);
    s
}

/// Appends the decimal digits of `n` to `out`.
pub fn push_decimal(out: &mut String, n: u16)
    ensures
        final(out)@ == old(out)@ + decimal(n as nat),
    decreases n,
{
    if n >= 10 {
        push_decimal(out, n / 10);
    }
    out.append(digit_text((n % 10) as u8));
    assert(out@ =~= old(out)@ + decimal(n as nat));
}

/// Appends the lower-case hexadecimal digits of `n` to `out`.
pub fn push_lower_hex(out: &mut String, n: u16)
    ensures
        final(out)@ == old(out)@ + lower_hex(n as nat),
    decreases n,
{
    if n >= 16 {
        push_lower_hex(out, n / 16);
    }
    out.append(digit_text((n % 16) as u8));
    assert(out@ =~= old(out)@ + lower_hex(n as nat));
}

/// Appends four octets in decimal, joined by dots, to `out`.
pub fn push_dotted_quad(out: &mut String, a: u8, b: u8, c: u8, d: u8)
    ensures
        final(out)@ == old(out)@ + dotted_quad(quad(a, b, c, d)),
{
    proof {
        reveal_strlit(".");
    }
    push_decimal(out, a as u16);
    out.append(".");
    push_decimal(out, b as u16);
    out.append(".");
    push_decimal(out, c as u16);
    out.append(".");
    push_decimal(out, d as u16);
    assert(out@ =~= old(out)@ + dotted_quad(quad(a, b, c, d)));
}

/// Appends the segments from `from` up to `to` in hexadecimal, joined by
/// colons, to `out`.
pub fn push_hex_groups(out: &mut String, segments: &[u16; 8], from: usize, to: usize)
    requires
        from <= to <= 8,
    ensures
        final(out)@ == old(out)@ + hex_groups(segments@.subrange(from as int, to as int)),
{
    proof {
        reveal_strlit(":");
    }
    let mut i: usize = from;
    assert(segments@.subrange(from as int, from as int) =~= Seq::<u16>::empty());
    assert(out@ =~= old(out)@ + hex_groups(segments@.subrange(from as int, from as int)));
    while i < to
        invariant
            from <= i <= to <= 8,
            ":"@ == seq![':'],
            out@ == old(out)@ + hex_groups(segments@.subrange(from as int, i as int)),
        decreases to - i,
    {
        let ghost before = segments@.subrange(from as int, i as int);
        let ghost after = segments@.subrange(from as int, i as int + 1);
        assert(after.drop_last() =~= before);
        assert(after.last() == segments@[i as int]);
        if i > from {
            out.append(":");
        }
        push_lower_hex(out, segments[i]);
        assert(out@ =~= old(out)@ + hex_groups(after));
        i += 1;
    }
}

/// Finds the first longest run of zero segments: where it starts and how
/// many segments it has. Without a zero segment both are zero.
pub fn find_zero_run(segments: &[u16; 8]) -> (r: (usize, usize))
    ensures
        is_longest_zero_run(segments@, r.0 as int, r.1 as int),
        longest_zero_run(segments@) == (r.0 as int, r.1 as int),
{
    let ghost s = segments@;
    let mut best_at: usize = 0;
    let mut best_len: usize = 0;
    let mut cur_len: usize = 0;
    let mut i: usize = 0;
    while i < 8
        invariant
            i <= 8,
            s == segments@,
            s.len() == 8,
            best_at + best_len <= i,
            all_zero(s, best_at as int, best_at + best_len),
            forall|a: int, b: int| 0 <= a <= b <= i && #[trigger] all_zero(s, a, b) ==> b - a <= best_len,
            forall|a: int| 0 <= a < best_at ==> !#[trigger] all_zero(s, a, a + best_len),
            cur_len <= i,
            cur_len <= best_len,
            all_zero(s, i - cur_len, i as int),
            cur_len < i ==> s[i - cur_len - 1] != 0,
        decreases 8 - i,
    {
        let ghost old_best_at = best_at as int;
        let ghost old_best_len = best_len as int;
        let ghost old_cur = cur_len as int;
        if segments[i] == 0 {
            cur_len += 1;
            if cur_len > best_len {
                best_len = cur_len;
                best_at = i + 1 - cur_len;
            }
            assert forall|a: int, b: int| 0 <= a <= b <= i + 1 && #[trigger] all_zero(s, a, b) implies b
                - a <= best_len by {
                if b == i + 1 && a < i - old_cur {
                    assert(s[i - old_cur - 1] == 0);
                }
            }
            assert forall|a: int| 0 <= a < best_at implies !#[trigger] all_zero(s, a, a + best_len) by {
                if best_len != old_best_len {
                    if all_zero(s, a, a + best_len) {
                        assert(a + best_len <= i);
                    }
                }
            }
        } else {
            cur_len = 0;
            assert forall|a: int, b: int| 0 <= a <= b <= i + 1 && #[trigger] all_zero(s, a, b) implies b
                - a <= best_len by {
                if b == i + 1 && a < b {
                    assert(s[i as int] == 0);
                }
            }
        }
        i += 1;
    }
    proof {
        lemma_longest_zero_run_unique(s, best_at as int, best_len as int);
    }
    (best_at, best_len)
}

/// Builds the canonical text of the IPv4 address with the octets `octets`.
pub fn ipv4_to_string(octets: &[u8; 4]) -> (r: String)
    ensures
        r@ == ipv4_text(octets@),
{
    let mut out = String::new();
    push_dotted_quad(&mut out, octets[0], octets[1], octets[2], octets[3]);
    assert(octets@ =~= quad(octets[0], octets[1], octets[2], octets[3]));
    assert(out@ =~= ipv4_text(octets@));
    out
}

/// Builds the canonical text of the IPv6 address with the segments
/// `segments`.
pub fn ipv6_to_string(segments: &[u16; 8]) -> (r: String)
    ensures
        r@ == ipv6_text(segments@),
{
    let ghost s = segments@;
    let mut out = String::new();
    let head_zero = segments[0] == 0 && segments[1] == 0 && segments[2] == 0 && segments[3] == 0
        && segments[4] == 0;
    proof {
        reveal_strlit("::");
        reveal_strlit("::1");
        reveal_strlit("::ffff:");
    }
    if head_zero && segments[5] == 0 && segments[6] == 0 && segments[7] == 0 {
        assert(s =~= octo(0, 0, 0, 0, 0, 0, 0, 0));
        out.append("::");
        assert(out@ =~= seq![':', ':']);
    } else if head_zero && segments[5] == 0 && segments[6] == 0 && segments[7] == 1 {
        assert(s =~= octo(0, 0, 0, 0, 0, 0, 0, 1));
        out.append("::1");
        assert(out@ =~= seq![':', ':', '1']);
    } else if head_zero && (segments[5] == 0 || segments[5] == 0xffff) {
        let (g, h): (u16, u16) = (segments[6], segments[7]);
        assert((g >> 8) == g / 0x100 && (g & 0xff) == g % 0x100 && (h >> 8) == h / 0x100 && (h & 0xff)
            == h % 0x100) by (bit_vector);
        if segments[5] == 0 {
            out.append("::");
        } else {
            out.append("::ffff:");
        }
        push_dotted_quad(
            &mut out,
            (g >> 8) as u8,
            (g & 0xff) as u8,
            (h >> 8) as u8,
            (h & 0xff) as u8,
        );
        assert(s[5] == 0 ==> all_zero(s, 0, 6));
        assert(s[5] != 0 ==> !all_zero(s, 0, 6));
        assert(all_zero(s, 0, 5));
        assert(out@ =~= ipv6_text(s));
    } else {
        assert(!all_zero(s, 0, 6) && !(all_zero(s, 0, 5) && s[5] == 0xffff)) by {
            if all_zero(s, 0, 5) {
                assert(s[0] == 0 && s[1] == 0 && s[2] == 0 && s[3] == 0 && s[4] == 0);
            }
            if all_zero(s, 0, 6) {
                assert(s[5] == 0);
            }
        }
        let (at, len) = find_zero_run(segments);
        if len > 1 {
            push_hex_groups(&mut out, segments, 0, at);
            out.append("::");
            push_hex_groups(&mut out, segments, at + len, 8);
        } else {
            push_hex_groups(&mut out, segments, 0, 8);
            assert(s.subrange(0, 8) =~= s);
        }
        assert(out@ =~= ipv6_text(s));
    }
    out
}

/// Appends a colon and the port in decimal to `out`.
pub fn push_port(out: &mut String, port: u16)
    ensures
        final(out)@ == old(out)@ + port_suffix(port),
{
    proof {
        reveal_strlit(":");
    }
    out.append(":");
    push_decimal(out, port);
    assert(out@ =~= old(out)@ + port_suffix(port));
}

} // verus!
