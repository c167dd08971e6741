//! Reading addresses from text.
//!
//! Every function here returns what the grammar of the text says: the
//! address that the text denotes, or an error where it denotes none.

use crate::grammar::{
    decimal_digit_value, decimal_value, first_double_colon, hex_digit_value, hex_value,
    last_index_of, lemma_decimal_value_digits, lemma_first_double_colon_absent,
    lemma_first_double_colon_at, lemma_hex_value_digits, lemma_last_index_absent,
    lemma_last_index_is, lemma_parse_hex_fields_push, lemma_split_len, parse_groups,
    parse_hex_fields, parse_hex_group, parse_ip, parse_ipv4, parse_ipv6, parse_octet, split,
    zeros,
};
use crate::ip::IpAddr;
use crate::ipv4::{quad, Ipv4Addr, Ipv4Address};
use crate::ipv6::{segment_of, Ipv6Addr, Ipv6Address};
use vstd::prelude::*;

verus! {

/// Why a text could not be read: it is the text of no address of the kind
/// that was asked for.
#[derive(Debug, Clone, Copy, PartialEq, Eq, Structural)]
pub enum AddrParseError {
    /// The text denotes no IPv4 address.
    Ipv4,
    /// The text denotes no IPv6 address.
    Ipv6,
    /// The text denotes no address of either family.
    Ip,
}

/// Collects the characters of a string.
pub fn chars_of(s: &str) -> (v: Vec<char>)
    ensures
        v@ == s@,
{
    let mut v: Vec<char> = Vec::new();
    for c in it: s.chars()
        invariant
            v@ == it.seq().take(it.index() as int),
            it.seq() == s@,
    {
        v.push(c);
        assert(it.seq().take(it.index() + 1) =~= it.seq().take(it.index() as int).push(c));
    }
    assert(v@ =~= s@);
    v
}

/// Gives the value of a decimal digit.
fn decimal_digit(c: char) -> (r: Option<u8>)
    ensures
        match r {
            Some(d) => decimal_digit_value(c) == Some(d as nat),
            None => decimal_digit_value(c) is None,
        },
{
    if c == '0' {
        Some(0)
    } else if c == '1' {
        Some(1)
    } else if c == '2' {
        Some(2)
    } else if c == '3' {
        Some(3)
    } else if c == '4' {
        Some(4)
    } else if c == '5' {
        Some(5)
    } else if c == '6' {
        Some(6)
    } else if c == '7' {
        Some(7)
    } else if c == '8' {
        Some(8)
    } else if c == '9' {
        Some(9)
    } else {
        None
    }
}

/// Finds where `c` stands last among the characters from `from` up to
/// `to`.
fn last_index(t: &Vec<char>, from: usize, to: usize, c: char) -> (r: Option<usize>)
    requires
        from <= to <= t.len(),
    ensures
        match r {
            Some(k) => from <= k < to && t@[k as int] == c && last_index_of(
                t@.subrange(from as int, to as int),
                c,
            ) == k - from,
            None => last_index_of(t@.subrange(from as int, to as int), c) == -1,
        },
{
    let ghost w = t@.subrange(from as int, to as int);
    let mut i: usize = to;
    while i > from
        invariant
            from <= i <= to <= t.len(),
            w == t@.subrange(from as int, to as int),
            forall|j: int| i <= j < to ==> t@[j] != c,
        decreases i,
    {
        i -= 1;
        if t[i] == c {
            proof {
                assert forall|j: int| i - from < j < w.len() implies w[j] != c by {
                    assert(w[j] == t@[j + from]);
                }
                lemma_last_index_is(w, c, i - from);
            }
            return Some(i);
        }
    }
    proof {
        assert forall|j: int| 0 <= j < w.len() implies w[j] != c by {
            assert(w[j] == t@[j + from]);
        }
        lemma_last_index_absent(w, c);
    }
    None
}

/// Reads the characters from `from` up to `to` as an octet in decimal.
fn decimal_octet(t: &Vec<char>, from: usize, to: usize) -> (r: Option<u8>)
    requires
        from <= to <= t.len(),
    ensures
        r == parse_octet(t@.subrange(from as int, to as int)),
{
    let ghost w = t@.subrange(from as int, to as int);
    if to - from == 0 || to - from > 3 {
        return None;
    }
    if to - from > 1 && t[from] == '0' {
        assert(w[0] == '0');
        return None;
    }
    let mut v: u16 = 0;
    let mut i: usize = from;
    while i < to
        invariant
            from <= i <= to <= t.len(),
            to - from <= 3,
            w == t@.subrange(from as int, to as int),
            i == from ==> v == 0,
            i > from ==> decimal_value(w.take(i - from)) == Some(v as nat),
            v < 1000,
            i - from <= 2 ==> v < 100,
            i - from <= 1 ==> v < 10,
        decreases to - i,
    {
        let ghost before = w.take(i - from);
        let ghost after = w.take(i - from + 1);
        assert(after.drop_last() =~= before);
        assert(after.last() == t@[i as int]);
        match decimal_digit(t[i]) {
            Some(d) => {
                v = v * 10 + d as u16;
            },
            None => {
                proof {
                    if decimal_value(w) is Some {
                        lemma_decimal_value_digits(w);
                        assert(w[i - from] == t@[i as int]);
                    }
                }
                return None;
            },
        }
        i += 1;
    }
    assert(w.take(to - from) =~= w);
    if v <= 255 {
        Some(v as u8)
    } else {
        None
    }
}

/// Reads the characters from `from` up to `to` as a dotted quad.
pub fn dotted_quad_octets(t: &Vec<char>, from: usize, to: usize) -> (r: Option<[u8; 4]>)
    requires
        from <= to <= t.len(),
    ensures
        match r {
            Some(o) => parse_ipv4(t@.subrange(from as int, to as int)) == Some(o@),
            None => parse_ipv4(t@.subrange(from as int, to as int)) is None,
        },
{
    reveal(parse_ipv4);
    let ghost w = t@.subrange(from as int, to as int);
    let k3 = match last_index(t, from, to, '.') {
        Some(k) => k,
        None => {
            return None;
        },
    };
    let ghost w3 = t@.subrange(from as int, k3 as int);
    let ghost f3 = t@.subrange(k3 + 1, to as int);
    assert(w.take(k3 - from) =~= w3);
    assert(w.skip(k3 - from + 1) =~= f3);
    assert(split(w, '.') == split(w3, '.').push(f3));
    let k2 = match last_index(t, from, k3, '.') {
        Some(k) => k,
        None => {
            return None;
        },
    };
    let ghost w2 = t@.subrange(from as int, k2 as int);
    let ghost f2 = t@.subrange(k2 + 1, k3 as int);
    assert(w3.take(k2 - from) =~= w2);
    assert(w3.skip(k2 - from + 1) =~= f2);
    assert(split(w3, '.') == split(w2, '.').push(f2));
    let k1 = match last_index(t, from, k2, '.') {
        Some(k) => k,
        None => {
            return None;
        },
    };
    let ghost w1 = t@.subrange(from as int, k1 as int);
    let ghost f1 = t@.subrange(k1 + 1, k2 as int);
    assert(w2.take(k1 - from) =~= w1);
    assert(w2.skip(k1 - from + 1) =~= f1);
    assert(split(w2, '.') == split(w1, '.').push(f1));
    proof {
        lemma_split_len(w1, '.');
    }
    if last_index(t, from, k1, '.').is_some() {
        return None;
    }
    assert(split(w, '.') =~= seq![w1, f1, f2, f3]);
    let a = decimal_octet(t, from, k1);
    let b = decimal_octet(t, k1 + 1, k2);
    let c = decimal_octet(t, k2 + 1, k3);
    let d = decimal_octet(t, k3 + 1, to);
    match (a, b, c, d) {
        (Some(a), Some(b), Some(c), Some(d)) => {
            let o = [a, b, c, d];
            assert(o@ =~= quad(a, b, c, d));
            Some(o)
        },
        _ => None,
    }
}

/// Gives the value of a hexadecimal digit of either case.
fn hex_digit(c: char) -> (r: Option<u8>)
    ensures
        match r {
            Some(d) => hex_digit_value(c) == Some(d as nat) && d < 16,
            None => hex_digit_value(c) is None,
        },
{
    match decimal_digit(c) {
        Some(d) => Some(d),
        None => if c == 'a' || c == 'A' {
            Some(10)
        } else if c == 'b' || c == 'B' {
            Some(11)
        } else if c == 'c' || c == 'C' {
            Some(12)
        } else if c == 'd' || c == 'D' {
            Some(13)
        } else if c == 'e' || c == 'E' {
            Some(14)
        } else if c == 'f' || c == 'F' {
            Some(15)
        } else {
            None
        },
    }
}

/// Reads the characters from `from` up to `to` as a segment in hexadecimal.
fn hex_group(t: &Vec<char>, from: usize, to: usize) -> (r: Option<u16>)
    requires
        from <= to <= t.len(),
    ensures
        r == parse_hex_group(t@.subrange(from as int, to as int)),
{
    let ghost w = t@.subrange(from as int, to as int);
    if to - from == 0 || to - from > 4 {
        return None;
    }
    let mut v: u32 = 0;
    let mut i: usize = from;
    while i < to
        invariant
            from <= i <= to <= t.len(),
            to - from <= 4,
            w == t@.subrange(from as int, to as int),
            i == from ==> v == 0,
            i > from ==> hex_value(w.take(i - from)) == Some(v as nat),
            v < 0x1_0000,
            i - from <= 3 ==> v < 0x1000,
            i - from <= 2 ==> v < 0x100,
            i - from <= 1 ==> v < 0x10,
        decreases to - i,
    {
        let ghost before = w.take(i - from);
        let ghost after = w.take(i - from + 1);
        assert(after.drop_last() =~= before);
        assert(after.last() == t@[i as int]);
        match hex_digit(t[i]) {
            Some(d) => {
                v = v * 16 + d as u32;
            },
            None => {
                proof {
                    if hex_value(w) is Some {
                        lemma_hex_value_digits(w);
                        assert(w[i - from] == t@[i as int]);
                    }
                }
                return None;
            },
        }
        i += 1;
    }
    assert(w.take(to - from) =~= w);
    Some(v as u16)
}

/// Tells whether a dot stands among the characters from `from` up to `to`.
fn holds_dot(t: &Vec<char>, from: usize, to: usize) -> (r: bool)
    requires
        from <= to <= t.len(),
    ensures
        r == t@.subrange(from as int, to as int).contains('.'),
{
    let ghost w = t@.subrange(from as int, to as int);
    let mut i: usize = from;
    while i < to
        invariant
            from <= i <= to <= t.len(),
            w == t@.subrange(from as int, to as int),
            forall|j: int| 0 <= j < i - from ==> w[j] != '.',
        decreases to - i,
    {
        if t[i] == '.' {
            assert(w[i - from] == '.');
            return true;
        }
        i += 1;
    }
    false
}

/// Reads the characters from `from` up to `to` as hexadecimal groups
/// between colons, `limit` of them at most.
fn hex_fields(t: &Vec<char>, from: usize, to: usize, limit: usize) -> (r: Option<Vec<u16>>)
    requires
        from <= to <= t.len(),
    ensures
        match r {
            Some(v) => parse_hex_fields(split(t@.subrange(from as int, to as int), ':')) == Some(
                v@,
            ) && v@.len() <= limit,
            None => match parse_hex_fields(split(t@.subrange(from as int, to as int), ':')) {
                Some(v) => v.len() > limit,
                None => true,
            },
        },
    decreases limit,
{
    let ghost w = t@.subrange(from as int, to as int);
    proof {
        lemma_split_len(w, ':');
    }
    if limit == 0 {
        return None;
    }
    match last_index(t, from, to, ':') {
        None => {
            assert(split(w, ':') =~= seq![w]);
            proof {
                lemma_parse_hex_fields_push(Seq::<Seq<char>>::empty(), w);
                assert(Seq::<Seq<char>>::empty().push(w) =~= seq![w]);
                assert(parse_hex_fields(Seq::<Seq<char>>::empty()) == Some(Seq::<u16>::empty())) by {
                    assert(Seq::new(
                        0,
                        |i: int| parse_hex_group(Seq::<Seq<char>>::empty()[i])->0,
                    ) =~= Seq::<u16>::empty());
                }
            }
            match hex_group(t, from, to) {
                Some(g) => {
                    let mut v: Vec<u16> = Vec::new();
                    v.push(g);
                    assert(v@ =~= Seq::<u16>::empty().push(g));
                    Some(v)
                },
                None => None,
            }
        },
        Some(k) => {
            let ghost front = t@.subrange(from as int, k as int);
            let ghost field = t@.subrange(k + 1, to as int);
            assert(w.take(k - from) =~= front);
            assert(w.skip(k - from + 1) =~= field);
            assert(split(w, ':') == split(front, ':').push(field));
            proof {
                lemma_parse_hex_fields_push(split(front, ':'), field);
            }
            match hex_fields(t, from, k, limit - 1) {
                None => None,
                Some(v) => {
                    match hex_group(t, k + 1, to) {
                        Some(g) => {
                            let mut v = v;
                            v.push(g);
                            Some(v)
                        },
                        None => None,
                    }
                },
            }
        },
    }
}

/// Reads the characters from `from` up to `to` as hexadecimal groups
/// between colons where the last field may be a dotted quad; `limit`
/// segments at most.
fn groups(t: &Vec<char>, from: usize, to: usize, limit: usize) -> (r: Option<Vec<u16>>)
    requires
        from <= to <= t.len(),
        limit >= 2,
    ensures
        match r {
            Some(v) => parse_groups(t@.subrange(from as int, to as int)) == Some(v@) && v@.len()
                <= limit,
            None => match parse_groups(t@.subrange(from as int, to as int)) {
                Some(v) => v.len() > limit,
                None => true,
            },
        },
{
    reveal(parse_groups);
    let ghost w = t@.subrange(from as int, to as int);
    if from == to {
        return Some(Vec::new());
    }
    let k = last_index(t, from, to, ':');
    let start = match k {
        Some(k) => k + 1,
        None => from,
    };
    let ghost fields = split(w, ':');
    let ghost last = t@.subrange(start as int, to as int);
    proof {
        match k {
            Some(k) => {
                assert(w.take(k - from) =~= t@.subrange(from as int, k as int));
                assert(w.skip(k - from + 1) =~= last);
                assert(fields == split(t@.subrange(from as int, k as int), ':').push(last));
                assert(fields.drop_last() =~= split(t@.subrange(from as int, k as int), ':'));
            },
            None => {
                assert(last =~= w);
                assert(fields =~= seq![w]);
                assert(fields.drop_last() =~= Seq::<Seq<char>>::empty());
                assert(parse_hex_fields(Seq::<Seq<char>>::empty()) == Some(Seq::<u16>::empty())) by {
                    assert(Seq::new(
                        0,
                        |i: int| parse_hex_group(Seq::<Seq<char>>::empty()[i])->0,
                    ) =~= Seq::<u16>::empty());
                }
            },
        }
        assert(fields.last() == last);
    }
    if holds_dot(t, start, to) {
        let o = match dotted_quad_octets(t, start, to) {
            Some(o) => o,
            None => {
                return None;
            },
        };
        let mut v = match k {
            Some(k) => match hex_fields(t, from, k, limit - 2) {
                Some(v) => v,
                None => {
                    return None;
                },
            },
            None => Vec::new(),
        };
        let (a, b, c, d): (u8, u8, u8, u8) = (o[0], o[1], o[2], o[3]);
        assert(((a as u16) << 8) | (b as u16) == a * 0x100 + b && ((c as u16) << 8) | (d as u16) == c
            * 0x100 + d) by (bit_vector);
        let ghost h = v@;
        v.push(((a as u16) << 8) | (b as u16));
        v.push(((c as u16) << 8) | (d as u16));
        assert(v@ =~= h + seq![segment_of(o@[0], o@[1]), segment_of(o@[2], o@[3])]);
        Some(v)
    } else {
        hex_fields(t, from, to, limit)
    }
}

/// Finds where two colons in a row stand first.
fn find_double_colon(t: &Vec<char>) -> (r: Option<usize>)
    ensures
        match r {
            Some(p) => p + 1 < t.len() && first_double_colon(t@) == p,
            None => first_double_colon(t@) == -1,
        },
{
    if t.len() < 2 {
        return None;
    }
    let mut i: usize = 0;
    while i + 1 < t.len()
        invariant
            i + 1 <= t.len(),
            forall|j: int| 0 <= j < i ==> !(#[trigger] t@[j] == ':' && t@[j + 1] == ':'),
        decreases t.len() - i,
    {
        if t[i] == ':' && t[i + 1] == ':' {
            proof {
                lemma_first_double_colon_at(t@, i as int);
            }
            return Some(i);
        }
        i += 1;
    }
    proof {
        lemma_first_double_colon_absent(t@);
    }
    None
}

/// Reads the characters of `t` as the text of an IPv6 address.
pub fn ipv6_segments(t: &Vec<char>) -> (r: Option<[u16; 8]>)
    ensures
        match r {
            Some(s) => parse_ipv6(t@) == Some(s@),
            None => parse_ipv6(t@) is None,
        },
{
    reveal(parse_ipv6);
    match find_double_colon(t) {
        Some(p) => {
            assert(t@.take(p as int) =~= t@.subrange(0, p as int));
            assert(t@.skip(p + 2) =~= t@.subrange(p + 2, t@.len() as int));
            let head = if p == 0 {
                Some(Vec::new())
            } else {
                hex_fields(t, 0, p, 7)
            };
            let tail = groups(t, p + 2, t.len(), 7);
            match (head, tail) {
                (Some(h), Some(l)) => {
                    if h.len() + l.len() > 7 {
                        return None;
                    }
                    let mut s: [u16; 8] = [0;8];
                    let mut i: usize = 0;
                    while i < h.len()
                        invariant
                            i <= h.len(),
                            h.len() + l.len() <= 7,
                            forall|j: int| 0 <= j < i ==> s@[j] == h@[j],
                            forall|j: int| i <= j < 8 ==> s@[j] == 0,
                        decreases h.len() - i,
                    {
                        s[i] = h[i];
                        i += 1;
                    }
                    let gap = 8 - h.len() - l.len();
                    let mut i: usize = 0;
                    while i < l.len()
                        invariant
                            i <= l.len(),
                            h.len() + l.len() <= 7,
                            gap == 8 - h.len() - l.len(),
                            forall|j: int| 0 <= j < h.len() ==> s@[j] == h@[j],
                            forall|j: int| h.len() <= j < h.len() + gap ==> s@[j] == 0,
                            forall|j: int| 0 <= j < i ==> s@[h.len() + gap + j] == l@[j],
                        decreases l.len() - i,
                    {
                        s[h.len() + gap + i] = l[i];
                        i += 1;
                    }
                    assert(s@ =~= h@ + zeros(8 - h@.len() - l@.len()) + l@);
                    Some(s)
                },
                _ => None,
            }
        },
        None => {
            assert(t@.subrange(0, t@.len() as int) =~= t@);
            match groups(t, 0, t.len(), 8) {
                Some(g) => {
                    if g.len() != 8 {
                        return None;
                    }
                    let s = [g[0], g[1], g[2], g[3], g[4], g[5], g[6], g[7]];
                    assert(s@ =~= g@);
                    Some(s)
                },
                None => None,
            }
        },
    }
}

impl<IV4: Ipv4Address> Ipv4Addr<IV4> {
    /// Reads an IPv4 address from its text: four octets in decimal between
    /// dots.
    pub fn from_text(s: &str) -> (r: Result<Self, AddrParseError>)
        ensures
            match r {
                Ok(a) => parse_ipv4(s@) == Some(a@),
                Err(e) => parse_ipv4(s@) is None && e == AddrParseError::Ipv4,
            },
    {
        let t = chars_of(s);
        assert(t@.subrange(0, t@.len() as int) =~= s@);
        match dotted_quad_octets(&t, 0, t.len()) {
            Some(o) => {
                assert(quad(o[0], o[1], o[2], o[3]) =~= o@);
                Ok(Ipv4Addr::new(o[0], o[1], o[2], o[3]))
            },
            None => Err(AddrParseError::Ipv4),
        }
    }
}

impl<IV4: Ipv4Address> core::str::FromStr for Ipv4Addr<IV4> {
    type Err = AddrParseError;

    /// Reads an IPv4 address from its text, as `from_text` does.
    fn from_str(s: &str) -> (r: Result<Self, AddrParseError>)
        ensures
            match r {
                Ok(a) => parse_ipv4(s@) == Some(a@),
                Err(e) => parse_ipv4(s@) is None && e == AddrParseError::Ipv4,
            },
    {
        Ipv4Addr::from_text(s)
    }
}


impl<IV6: Ipv6Address> Ipv6Addr<IV6> {
    /// Reads an IPv6 address from its text: hexadecimal groups between
    /// colons, with `::` for one run of zero groups at most and, if wanted,
    /// a dotted quad for the last two groups.
    pub fn from_text(s: &str) -> (r: Result<Self, AddrParseError>)
        ensures
            match r {
                Ok(a) => parse_ipv6(s@) == Some(a@),
                Err(e) => parse_ipv6(s@) is None && e == AddrParseError::Ipv6,
            },
    {
        let t = chars_of(s);
        match ipv6_segments(&t) {
            Some(g) => {
                proof {
                    Self::lemma_segments_of_new(g);
                }
                Ok(Ipv6Addr::new(g[0], g[1], g[2], g[3], g[4], g[5], g[6], g[7]))
            },
            None => Err(AddrParseError::Ipv6),
        }
    }
}

impl<IV6: Ipv6Address> core::str::FromStr for Ipv6Addr<IV6> {
    type Err = AddrParseError;

    /// Reads an IPv6 address from its text, as `from_text` does.
    fn from_str(s: &str) -> (r: Result<Self, AddrParseError>)
        ensures
            match r {
                Ok(a) => parse_ipv6(s@) == Some(a@),
                Err(e) => parse_ipv6(s@) is None && e == AddrParseError::Ipv6,
            },
    {
        Ipv6Addr::from_text(s)
    }
}

impl<IV4: Ipv4Address, IV6: Ipv6Address> IpAddr<IV4, IV6> {
    /// Reads an address of either family from its text: an IPv4 address if
    /// the text is a dotted quad, else an IPv6 address.
    pub fn from_text(s: &str) -> (r: Result<Self, AddrParseError>)
        ensures
            match r {
                Ok(a) => parse_ip(s@) == Some(a@),
                Err(e) => parse_ip(s@) is None && e == AddrParseError::Ip,
            },
    {
        match Ipv4Addr::from_text(s) {
            Ok(a) => Ok(IpAddr::V4(a)),
            Err(_) => match Ipv6Addr::from_text(s) {
                Ok(a) => Ok(IpAddr::V6(a)),
                Err(_) => Err(AddrParseError::Ip),
            },
        }
    }
}

impl<IV4: Ipv4Address, IV6: Ipv6Address> core::str::FromStr for IpAddr<IV4, IV6> {
    type Err = AddrParseError;

    /// Reads an address of either family from its text, as `from_text`
    /// does.
    fn from_str(s: &str) -> (r: Result<Self, AddrParseError>)
        ensures
            match r {
                Ok(a) => parse_ip(s@) == Some(a@),
                Err(e) => parse_ip(s@) is None && e == AddrParseError::Ip,
            },
    {
        IpAddr::from_text(s)
    }
}

} // verus!
