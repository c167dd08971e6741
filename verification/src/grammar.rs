//! What the text of an address denotes, and the proof that the canonical
//! text of every address denotes that address.
//!
//! The functions here say which strings are texts of addresses, and of
//! which addresses. They accept more than the canonical text: upper-case
//! digits and leading zeros in a hexadecimal group, `::` for any run of
//! zero groups, and a dotted quad for the last two groups.

use crate::ip::IpAddrView;
use crate::ipv4::quad;
use crate::ipv6::{high_byte, low_byte, octo, segment_of};
use crate::text::{
    all_zero, decimal, digit_char, dotted_quad, embedded_quad, hex_groups, ipv4_text, ipv6_text,
    lemma_longest_zero_run_exists, longest_zero_run, lower_hex,
};
use vstd::prelude::*;

verus! {

/// The value of a decimal digit; none for any other character.
pub open spec fn decimal_digit_value(c: char) -> Option<nat> {
    if c == '0' {
        Some(0)
    } else if c == '1' {
        Some(1)
    } else if c == '2' {
        Some(2)
    } else if c == '3' {
        Some(3)
    } else if c == '4' {
        Some(4)
    } else if c == '5' {
        Some(5)
    } else if c == '6' {
        Some(6)
    } else if c == '7' {
        Some(7)
    } else if c == '8' {
        Some(8)
    } else if c == '9' {
        Some(9)
    } else {
        None
    }
}

/// The value of a hexadecimal digit in either case; none for any other
/// character.
pub open spec fn hex_digit_value(c: char) -> Option<nat> {
    if decimal_digit_value(c) is Some {
        decimal_digit_value(c)
    } else if c == 'a' || c == 'A' {
        Some(10)
    } else if c == 'b' || c == 'B' {
        Some(11)
    } else if c == 'c' || c == 'C' {
        Some(12)
    } else if c == 'd' || c == 'D' {
        Some(13)
    } else if c == 'e' || c == 'E' {
        Some(14)
    } else if c == 'f' || c == 'F' {
        Some(15)
    } else {
        None
    }
}

/// The number that a string of decimal digits denotes; none for the empty
/// string and for a string with any other character.
pub open spec fn decimal_value(t: Seq<char>) -> Option<nat>
    decreases t.len(),
{
    if t.len() == 0 {
        None
    } else if t.len() == 1 {
        decimal_digit_value(t[0])
    } else {
        match (decimal_value(t.drop_last()), decimal_digit_value(t.last())) {
            (Some(v), Some(d)) => Some(v * 10 + d),
            _ => None,
        }
    }
}

/// The number that a string of hexadecimal digits denotes; none for the
/// empty string and for a string with any other character.
pub open spec fn hex_value(t: Seq<char>) -> Option<nat>
    decreases t.len(),
{
    if t.len() == 0 {
        None
    } else if t.len() == 1 {
        hex_digit_value(t[0])
    } else {
        match (hex_value(t.drop_last()), hex_digit_value(t.last())) {
            (Some(v), Some(d)) => Some(v * 16 + d),
            _ => None,
        }
    }
}

/// Where `c` stands last in `t`; `-1` if it stands nowhere.
pub open spec fn last_index_of(t: Seq<char>, c: char) -> int
    decreases t.len(),
{
    if t.len() == 0 {
        -1
    } else if t.last() == c {
        t.len() - 1
    } else {
        last_index_of(t.drop_last(), c)
    }
}

/// The fields of `t` between the occurrences of the separator `c`, in
/// their order. A string without the separator is one field.
pub open spec fn split(t: Seq<char>, c: char) -> Seq<Seq<char>>
    decreases t.len(),
{
    let k = last_index_of(t, c);
    if 0 <= k < t.len() {
        split(t.take(k), c).push(t.skip(k + 1))
    } else {
        seq![t]
    }
}

/// The octet that a field of a dotted quad denotes: one to three decimal
/// digits without a leading zero, of a value up to 255.
pub open spec fn parse_octet(t: Seq<char>) -> Option<u8> {
    match decimal_value(t) {
        Some(v) => if t.len() <= 3 && (t.len() > 1 ==> t[0] != '0') && v <= 255 {
            Some(v as u8)
        } else {
            None
        },
        None => None,
    }
}

/// The four octets that a dotted quad denotes: four fields between dots,
/// each of them an octet.
#[verifier::opaque]
pub open spec fn parse_ipv4(t: Seq<char>) -> Option<Seq<u8>> {
    let fields = split(t, '.');
    if fields.len() == 4 {
        match (
            parse_octet(fields[0]),
            parse_octet(fields[1]),
            parse_octet(fields[2]),
            parse_octet(fields[3]),
        ) {
            (Some(a), Some(b), Some(c), Some(d)) => Some(quad(a, b, c, d)),
            _ => None,
        }
    } else {
        None
    }
}

/// Whether `c` stands nowhere in `t`.
pub open spec fn free_of(t: Seq<char>, c: char) -> bool {
    forall|i: int| 0 <= i < t.len() ==> t[i] != c
}

/// A string without the separator has no last occurrence of it.
pub proof fn lemma_last_index_absent(t: Seq<char>, c: char)
    requires
        free_of(t, c),
    ensures
        last_index_of(t, c) == -1,
    decreases t.len(),
{
    if t.len() > 0 {
        assert(t[t.len() - 1] != c);
        lemma_last_index_absent(t.drop_last(), c);
    }
}

/// After a separator that is followed by a string without it, the
/// separator stands last where it was put.
pub proof fn lemma_last_index_joined(x: Seq<char>, c: char, f: Seq<char>)
    requires
        free_of(f, c),
    ensures
        last_index_of(x + seq![c] + f, c) == x.len(),
    decreases f.len(),
{
    let t = x + seq![c] + f;
    if f.len() == 0 {
        assert(t.last() == c);
    } else {
        assert(t.last() == f[f.len() - 1]);
        assert(t.drop_last() =~= x + seq![c] + f.drop_last());
        lemma_last_index_joined(x, c, f.drop_last());
    }
}

/// Where the separator stands last: at an index that holds it and after
/// which it does not stand again.
pub proof fn lemma_last_index_is(t: Seq<char>, c: char, k: int)
    requires
        0 <= k < t.len(),
        t[k] == c,
        forall|j: int| k < j < t.len() ==> t[j] != c,
    ensures
        last_index_of(t, c) == k,
{
    let x = t.take(k);
    let f = t.skip(k + 1);
    assert(t =~= x + seq![c] + f);
    lemma_last_index_joined(x, c, f);
}

/// The last index of the separator lies in the string, or is `-1`.
pub proof fn lemma_last_index_bounds(t: Seq<char>, c: char)
    ensures
        -1 <= last_index_of(t, c) < t.len(),
        last_index_of(t, c) >= 0 ==> t[last_index_of(t, c)] == c,
    decreases t.len(),
{
    if t.len() > 0 && t.last() != c {
        lemma_last_index_bounds(t.drop_last(), c);
    }
}

/// A string has one field at least, and two if it holds the separator.
pub proof fn lemma_split_len(t: Seq<char>, c: char)
    ensures
        split(t, c).len() >= 1,
        last_index_of(t, c) >= 0 ==> split(t, c).len() >= 2,
    decreases t.len(),
{
    let k = last_index_of(t, c);
    lemma_last_index_bounds(t, c);
    if 0 <= k < t.len() {
        lemma_split_len(t.take(k), c);
    }
}

/// A string of decimal digits that denotes a number holds decimal digits
/// only.
pub proof fn lemma_decimal_value_digits(t: Seq<char>)
    requires
        decimal_value(t) is Some,
    ensures
        forall|i: int| 0 <= i < t.len() ==> decimal_digit_value(#[trigger] t[i]) is Some,
    decreases t.len(),
{
    if t.len() > 1 {
        lemma_decimal_value_digits(t.drop_last());
        assert forall|i: int| 0 <= i < t.len() implies decimal_digit_value(#[trigger] t[i]) is Some by {
            if i < t.len() - 1 {
                assert(t[i] == t.drop_last()[i]);
            }
        }
    }
}

/// A string of hexadecimal digits that denotes a number holds hexadecimal
/// digits only.
pub proof fn lemma_hex_value_digits(t: Seq<char>)
    requires
        hex_value(t) is Some,
    ensures
        forall|i: int| 0 <= i < t.len() ==> hex_digit_value(#[trigger] t[i]) is Some,
    decreases t.len(),
{
    if t.len() > 1 {
        lemma_hex_value_digits(t.drop_last());
        assert forall|i: int| 0 <= i < t.len() implies hex_digit_value(#[trigger] t[i]) is Some by {
            if i < t.len() - 1 {
                assert(t[i] == t.drop_last()[i]);
            }
        }
    }
}

/// A string without the separator is one field.
pub proof fn lemma_split_one(f: Seq<char>, c: char)
    requires
        free_of(f, c),
    ensures
        split(f, c) == seq![f],
{
    lemma_last_index_absent(f, c);
}

/// Joining a string, the separator and a field without the separator adds
/// the field to the fields of the string.
pub proof fn lemma_split_joined(x: Seq<char>, c: char, f: Seq<char>)
    requires
        free_of(f, c),
    ensures
        split(x + seq![c] + f, c) == split(x, c).push(f),
{
    let t = x + seq![c] + f;
    lemma_last_index_joined(x, c, f);
    assert(t.take(x.len() as int) =~= x);
    assert(t.skip(x.len() as int + 1) =~= f);
}

/// What the decimal digits of a number are like: at least one, all of them
/// decimal digits, no leading zero but for zero itself, as many as the size
/// of the number asks for; and they denote the number.
pub proof fn lemma_decimal_shape(n: nat)
    ensures
        decimal(n).len() >= 1,
        forall|i: int| 0 <= i < decimal(n).len() ==> decimal_digit_value(#[trigger] decimal(n)[i]) is Some,
        n > 0 ==> decimal(n)[0] != '0',
        n < 10 ==> decimal(n).len() == 1,
        n < 100 ==> decimal(n).len() <= 2,
        n < 1000 ==> decimal(n).len() <= 3,
        decimal_value(decimal(n)) == Some(n),
    decreases n,
{
    if n >= 10 {
        lemma_decimal_shape(n / 10);
        let t = decimal(n);
        assert(t.drop_last() =~= decimal(n / 10));
        assert(t.last() == digit_char((n % 10) as int));
        assert(t[0] == decimal(n / 10)[0]);
        assert forall|i: int| 0 <= i < t.len() implies decimal_digit_value(#[trigger] t[i]) is Some by {
            if i < t.len() - 1 {
                assert(t[i] == decimal(n / 10)[i]);
            }
        }
    }
}

/// The decimal digits of a number hold neither a dot nor a colon.
pub proof fn lemma_decimal_free(n: nat)
    ensures
        free_of(decimal(n), '.'),
        free_of(decimal(n), ':'),
{
    lemma_decimal_shape(n);
}

/// The decimal text of an octet denotes the octet.
pub proof fn lemma_parse_octet(x: u8)
    ensures
        parse_octet(decimal(x as nat)) == Some(x),
{
    lemma_decimal_shape(x as nat);
}

/// A dotted quad holds no colon, and a dot.
pub proof fn lemma_dotted_quad_shape(o: Seq<u8>)
    requires
        o.len() == 4,
    ensures
        free_of(dotted_quad(o), ':'),
        dotted_quad(o).contains('.'),
{
    lemma_decimal_free(o[0] as nat);
    lemma_decimal_free(o[1] as nat);
    lemma_decimal_free(o[2] as nat);
    lemma_decimal_free(o[3] as nat);
    let t = dotted_quad(o);
    let k = decimal(o[0] as nat).len() as int;
    assert(t[k] == '.');
}

/// The text of an IPv4 address denotes its four octets.
pub proof fn lemma_ipv4_text_round_trip(o: Seq<u8>)
    requires
        o.len() == 4,
    ensures
        parse_ipv4(ipv4_text(o)) == Some(o),
{
    reveal(parse_ipv4);
    let a = decimal(o[0] as nat);
    let b = decimal(o[1] as nat);
    let c = decimal(o[2] as nat);
    let d = decimal(o[3] as nat);
    lemma_decimal_free(o[0] as nat);
    lemma_decimal_free(o[1] as nat);
    lemma_decimal_free(o[2] as nat);
    lemma_decimal_free(o[3] as nat);
    lemma_split_one(a, '.');
    lemma_split_joined(a, '.', b);
    lemma_split_joined(a + seq!['.'] + b, '.', c);
    lemma_split_joined(a + seq!['.'] + b + seq!['.'] + c, '.', d);
    let fields = split(ipv4_text(o), '.');
    assert(fields =~= seq![a, b, c, d]);
    lemma_parse_octet(o[0]);
    lemma_parse_octet(o[1]);
    lemma_parse_octet(o[2]);
    lemma_parse_octet(o[3]);
    assert(quad(o[0], o[1], o[2], o[3]) =~= o);
}

/// The segment that a field of hexadecimal digits denotes: one to four
/// digits of either case.
pub open spec fn parse_hex_group(t: Seq<char>) -> Option<u16> {
    match hex_value(t) {
        Some(v) => if t.len() <= 4 && v <= 0xffff {
            Some(v as u16)
        } else {
            None
        },
        None => None,
    }
}

/// The segments that a sequence of fields denotes, if each field is a
/// hexadecimal group.
pub open spec fn parse_hex_fields(fields: Seq<Seq<char>>) -> Option<Seq<u16>> {
    if forall|i: int| 0 <= i < fields.len() ==> parse_hex_group(#[trigger] fields[i]) is Some {
        Some(Seq::new(fields.len(), |i: int| parse_hex_group(fields[i])->0))
    } else {
        None
    }
}

/// The segments that hexadecimal groups between colons denote; no segment
/// for the empty string.
pub open spec fn parse_hex_text(t: Seq<char>) -> Option<Seq<u16>> {
    if t.len() == 0 {
        Some(Seq::empty())
    } else {
        parse_hex_fields(split(t, ':'))
    }
}

/// The segments that hexadecimal groups between colons denote where the
/// last field may be a dotted quad, which stands for two segments; no
/// segment for the empty string.
#[verifier::opaque]
pub open spec fn parse_groups(t: Seq<char>) -> Option<Seq<u16>> {
    if t.len() == 0 {
        Some(Seq::empty())
    } else {
        let fields = split(t, ':');
        if fields.last().contains('.') {
            match (parse_hex_fields(fields.drop_last()), parse_ipv4(fields.last())) {
                (Some(h), Some(o)) => Some(
                    h + seq![segment_of(o[0], o[1]), segment_of(o[2], o[3])],
                ),
                _ => None,
            }
        } else {
            parse_hex_fields(fields)
        }
    }
}

/// Where two colons in a row stand first in `t`; `-1` if they stand
/// nowhere.
pub open spec fn first_double_colon(t: Seq<char>) -> int
    decreases t.len(),
{
    if t.len() < 2 {
        -1
    } else if t[0] == ':' && t[1] == ':' {
        0
    } else {
        let r = first_double_colon(t.drop_first());
        if r < 0 {
            -1
        } else {
            r + 1
        }
    }
}

/// `n` zero segments.
pub open spec fn zeros(n: int) -> Seq<u16> {
    Seq::new(n as nat, |i: int| 0u16)
}

/// The eight segments that the text of an IPv6 address denotes.
///
/// With `::` in the text, the groups before it and the groups after it are
/// read, and as many zero segments stand between them as eight segments
/// need; there must be one at least. Without `::`, the text must hold
/// eight segments. The last two segments of the text may be written as a
/// dotted quad.
#[verifier::opaque]
pub open spec fn parse_ipv6(t: Seq<char>) -> Option<Seq<u16>> {
    let p = first_double_colon(t);
    if 0 <= p {
        match (parse_hex_text(t.take(p)), parse_groups(t.skip(p + 2))) {
            (Some(h), Some(l)) => if h.len() + l.len() <= 7 {
                Some(h + zeros(8 - h.len() - l.len()) + l)
            } else {
                None
            },
            _ => None,
        }
    } else {
        match parse_groups(t) {
            Some(g) => if g.len() == 8 {
                Some(g)
            } else {
                None
            },
            None => None,
        }
    }
}

/// Whether no two colons stand in a row in `t`.
pub open spec fn no_double_colon(t: Seq<char>) -> bool {
    forall|i: int| 0 <= i && i + 1 < t.len() ==> !(#[trigger] t[i] == ':' && t[i + 1] == ':')
}

/// What the hexadecimal digits of a number are like: at least one, all of
/// them hexadecimal digits, as many as the size of the number asks for; and
/// they denote the number.
pub proof fn lemma_lower_hex_shape(n: nat)
    ensures
        lower_hex(n).len() >= 1,
        forall|i: int| 0 <= i < lower_hex(n).len() ==> hex_digit_value(#[trigger] lower_hex(n)[i]) is Some,
        n < 0x10 ==> lower_hex(n).len() == 1,
        n < 0x100 ==> lower_hex(n).len() <= 2,
        n < 0x1000 ==> lower_hex(n).len() <= 3,
        n < 0x1_0000 ==> lower_hex(n).len() <= 4,
        hex_value(lower_hex(n)) == Some(n),
    decreases n,
{
    if n >= 16 {
        lemma_lower_hex_shape(n / 16);
        let t = lower_hex(n);
        assert(t.drop_last() =~= lower_hex(n / 16));
        assert(t.last() == digit_char((n % 16) as int));
        assert forall|i: int| 0 <= i < t.len() implies hex_digit_value(#[trigger] t[i]) is Some by {
            if i < t.len() - 1 {
                assert(t[i] == lower_hex(n / 16)[i]);
            }
        }
    }
}

/// The hexadecimal digits of a number hold neither a dot nor a colon.
pub proof fn lemma_lower_hex_free(n: nat)
    ensures
        free_of(lower_hex(n), '.'),
        free_of(lower_hex(n), ':'),
{
    lemma_lower_hex_shape(n);
}

/// The hexadecimal text of a segment denotes the segment.
pub proof fn lemma_parse_hex_group(x: u16)
    ensures
        parse_hex_group(lower_hex(x as nat)) == Some(x),
{
    lemma_lower_hex_shape(x as nat);
}

/// The fields of segments joined by colons are the hexadecimal texts of
/// the segments. Such a text has no two colons in a row, no dot, and a
/// digit at either end.
pub proof fn lemma_hex_groups_fields(s: Seq<u16>)
    requires
        s.len() >= 1,
    ensures
        split(hex_groups(s), ':') == Seq::new(s.len(), |i: int| lower_hex(s[i] as nat)),
        hex_groups(s).len() >= 1,
        hex_groups(s)[0] != ':',
        hex_groups(s).last() != ':',
        no_double_colon(hex_groups(s)),
        free_of(hex_groups(s), '.'),
    decreases s.len(),
{
    let last = lower_hex(s.last() as nat);
    lemma_lower_hex_shape(s.last() as nat);
    lemma_lower_hex_free(s.last() as nat);
    let fields = Seq::new(s.len(), |i: int| lower_hex(s[i] as nat));
    if s.len() == 1 {
        lemma_split_one(last, ':');
        assert(split(hex_groups(s), ':') =~= fields);
        assert(hex_groups(s)[0] == last[0]);
    } else {
        let front = s.drop_last();
        let x = hex_groups(front);
        lemma_hex_groups_fields(front);
        let t = hex_groups(s);
        assert(t == x + seq![':'] + last);
        lemma_split_joined(x, ':', last);
        assert(split(t, ':') =~= fields) by {
            assert forall|i: int| 0 <= i < s.len() implies split(t, ':')[i] == fields[i] by {
                if i < s.len() - 1 {
                    assert(front[i] == s[i]);
                }
            }
        }
        assert(t[0] == x[0]);
        assert(t.last() == last[last.len() - 1]);
        assert forall|i: int| 0 <= i && i + 1 < t.len() implies !(#[trigger] t[i] == ':' && t[i + 1]
            == ':') by {
            if i + 1 < x.len() {
                assert(t[i] == x[i] && t[i + 1] == x[i + 1]);
            } else if i + 1 == x.len() {
                assert(t[i] == x[x.len() - 1]);
            } else if i == x.len() {
                assert(t[i + 1] == last[0]);
            } else {
                assert(t[i] == last[i - x.len() - 1]);
            }
        }
        assert forall|i: int| 0 <= i < t.len() implies t[i] != '.' by {
            if i < x.len() {
                assert(t[i] == x[i]);
            } else if i > x.len() {
                assert(t[i] == last[i - x.len() - 1]);
            }
        }
    }
}

/// The hexadecimal texts of segments denote the segments.
pub proof fn lemma_parse_hex_fields(s: Seq<u16>)
    ensures
        parse_hex_fields(Seq::new(s.len(), |i: int| lower_hex(s[i] as nat))) == Some(s),
{
    let fields = Seq::new(s.len(), |i: int| lower_hex(s[i] as nat));
    assert forall|i: int| 0 <= i < fields.len() implies parse_hex_group(#[trigger] fields[i])
        == Some(s[i]) by {
        lemma_parse_hex_group(s[i]);
    }
    assert(Seq::new(fields.len(), |i: int| parse_hex_group(fields[i])->0) =~= s);
}

/// Segments joined by colons are read back as these segments.
pub proof fn lemma_parse_hex_text(s: Seq<u16>)
    ensures
        parse_hex_text(hex_groups(s)) == Some(s),
        parse_groups(hex_groups(s)) == Some(s),
{
    reveal(parse_groups);
    if s.len() == 0 {
        assert(s =~= Seq::<u16>::empty());
    } else {
        lemma_hex_groups_fields(s);
        lemma_parse_hex_fields(s);
        let fields = split(hex_groups(s), ':');
        lemma_lower_hex_free(s.last() as nat);
        assert(fields.last() == lower_hex(s.last() as nat));
        assert(!fields.last().contains('.'));
    }
}

/// One more field at the end is read after the fields before it.
pub proof fn lemma_parse_hex_fields_push(fields: Seq<Seq<char>>, f: Seq<char>)
    ensures
        parse_hex_fields(fields.push(f)) == match (parse_hex_fields(fields), parse_hex_group(f)) {
            (Some(v), Some(g)) => Some(v.push(g)),
            _ => None,
        },
{
    let all = fields.push(f);
    assert(all[fields.len() as int] == f);
    assert forall|i: int| 0 <= i < fields.len() implies all[i] == fields[i] by {}
    match (parse_hex_fields(fields), parse_hex_group(f)) {
        (Some(v), Some(g)) => {
            assert forall|i: int| 0 <= i < all.len() implies parse_hex_group(#[trigger] all[i]) is Some by {
                if i < fields.len() {
                    assert(all[i] == fields[i]);
                }
            }
            assert(Seq::new(all.len(), |i: int| parse_hex_group(all[i])->0) =~= v.push(g));
        },
        (None, _) => {
            let i = choose|i: int| 0 <= i < fields.len() && !(parse_hex_group(#[trigger] fields[i]) is Some);
            assert(all[i] == fields[i]);
        },
        (_, None) => {},
    }
}

/// Two colons in a row stand first at an index that holds them and before
/// which no two colons stand in a row.
pub proof fn lemma_first_double_colon_at(t: Seq<char>, p: int)
    requires
        0 <= p,
        p + 1 < t.len(),
        t[p] == ':',
        t[p + 1] == ':',
        forall|i: int| 0 <= i < p ==> !(#[trigger] t[i] == ':' && t[i + 1] == ':'),
    ensures
        first_double_colon(t) == p,
{
    let head = t.take(p);
    let tail = t.skip(p + 2);
    assert(t =~= head + seq![':', ':'] + tail);
    assert forall|i: int| 0 <= i && i + 1 < head.len() implies !(#[trigger] head[i] == ':' && head[i
        + 1] == ':') by {
        assert(head[i] == t[i] && head[i + 1] == t[i + 1]);
    }
    if head.len() > 0 {
        assert(head.last() == t[p - 1]);
    }
    lemma_first_double_colon_joined(head, tail);
}

/// A text without two colons in a row has no first place of them.
pub proof fn lemma_first_double_colon_absent(t: Seq<char>)
    requires
        no_double_colon(t),
    ensures
        first_double_colon(t) == -1,
    decreases t.len(),
{
    if t.len() >= 2 {
        assert(!(t[0] == ':' && t[1] == ':'));
        let r = t.drop_first();
        assert forall|i: int| 0 <= i && i + 1 < r.len() implies !(#[trigger] r[i] == ':' && r[i + 1]
            == ':') by {
            assert(r[i] == t[i + 1] && r[i + 1] == t[i + 2]);
        }
        lemma_first_double_colon_absent(r);
    }
}

/// After a text that has no two colons in a row and no colon at its end,
/// two colons stand first where they were put.
pub proof fn lemma_first_double_colon_joined(head: Seq<char>, tail: Seq<char>)
    requires
        no_double_colon(head),
        head.len() > 0 ==> head.last() != ':',
    ensures
        first_double_colon(head + seq![':', ':'] + tail) == head.len(),
    decreases head.len(),
{
    let t = head + seq![':', ':'] + tail;
    if head.len() == 0 {
        assert(t[0] == ':' && t[1] == ':');
    } else {
        if head.len() == 1 {
            assert(t[0] == head[0]);
        } else {
            assert(t[0] == head[0] && t[1] == head[1]);
        }
        assert(!(t[0] == ':' && t[1] == ':'));
        let r = head.drop_first();
        assert(t.drop_first() =~= r + seq![':', ':'] + tail);
        assert forall|i: int| 0 <= i && i + 1 < r.len() implies !(#[trigger] r[i] == ':' && r[i + 1]
            == ':') by {
            assert(r[i] == head[i + 1] && r[i + 1] == head[i + 2]);
        }
        if r.len() > 0 {
            assert(r.last() == head.last());
        }
        lemma_first_double_colon_joined(r, tail);
    }
}

/// The two bytes of a segment make the segment again.
pub proof fn lemma_segment_of_bytes(x: u16)
    ensures
        segment_of(high_byte(x), low_byte(x)) == x,
{
}

/// An embedded dotted quad is read back as the last two of the eight
/// segments.
proof fn lemma_parse_embedded_quad(s: Seq<u16>)
    requires
        s.len() == 8,
    ensures
        parse_ipv4(embedded_quad(s)) matches Some(o) && seq![
            segment_of(o[0], o[1]),
            segment_of(o[2], o[3]),
        ] == seq![s[6], s[7]],
        free_of(embedded_quad(s), ':'),
        embedded_quad(s).contains('.'),
        embedded_quad(s).len() > 0,
{
    let o = quad(high_byte(s[6]), low_byte(s[6]), high_byte(s[7]), low_byte(s[7]));
    lemma_ipv4_text_round_trip(o);
    lemma_dotted_quad_shape(o);
    lemma_segment_of_bytes(s[6]);
    lemma_segment_of_bytes(s[7]);
}

/// A text made of groups, `::` and what follows is read as the segments
/// of the groups, zero segments and the segments of what follows, if the
/// two sides denote at most seven segments together.
proof fn lemma_parse_around_gap(head: Seq<char>, tail: Seq<char>, h: Seq<u16>, l: Seq<u16>)
    requires
        no_double_colon(head),
        head.len() > 0 ==> head.last() != ':',
        parse_hex_text(head) == Some(h),
        parse_groups(tail) == Some(l),
        h.len() + l.len() <= 7,
    ensures
        parse_ipv6(head + seq![':', ':'] + tail) == Some(h + zeros(8 - h.len() - l.len()) + l),
{
    reveal(parse_ipv6);
    let t = head + seq![':', ':'] + tail;
    lemma_first_double_colon_joined(head, tail);
    assert(t.take(head.len() as int) =~= head);
    assert(t.skip(head.len() as int + 2) =~= tail);
}

/// A text made of `::` and what follows it is read as zero segments and
/// the segments after them, if what follows denotes at most seven segments.
proof fn lemma_parse_after_gap(tail: Seq<char>, l: Seq<u16>)
    requires
        parse_groups(tail) == Some(l),
        l.len() <= 7,
    ensures
        parse_ipv6(seq![':', ':'] + tail) == Some(zeros(8 - l.len()) + l),
{
    let none = Seq::<char>::empty();
    lemma_parse_around_gap(none, tail, Seq::<u16>::empty(), l);
    assert(none + seq![':', ':'] + tail =~= seq![':', ':'] + tail);
    assert(Seq::<u16>::empty() + zeros(8 - l.len()) + l =~= zeros(8 - l.len()) + l);
}

/// `::` denotes eight zero segments.
proof fn lemma_round_trip_unspecified(s: Seq<u16>)
    requires
        s == octo(0, 0, 0, 0, 0, 0, 0, 0),
    ensures
        parse_ipv6(seq![':', ':']) == Some(s),
{
    let none = Seq::<char>::empty();
    lemma_parse_hex_text(Seq::<u16>::empty());
    assert(hex_groups(Seq::<u16>::empty()) =~= none);
    lemma_parse_after_gap(none, Seq::<u16>::empty());
    assert(seq![':', ':'] + none =~= seq![':', ':']);
    assert(zeros(8) + Seq::<u16>::empty() =~= s);
}

/// `::1` denotes seven zero segments and the segment one.
proof fn lemma_round_trip_loopback(s: Seq<u16>)
    requires
        s == octo(0, 0, 0, 0, 0, 0, 0, 1),
    ensures
        parse_ipv6(seq![':', ':', '1']) == Some(s),
{
    let one = seq![1u16];
    let tail = hex_groups(one);
    assert(tail =~= seq!['1']);
    lemma_parse_hex_text(one);
    lemma_parse_after_gap(tail, one);
    assert(seq![':', ':'] + tail =~= seq![':', ':', '1']);
    assert(zeros(7) + one =~= s);
}

/// `::` and a dotted quad denote six zero segments and the two segments of
/// the quad.
proof fn lemma_parse_compatible(q: Seq<char>, o: Seq<u8>)
    requires
        free_of(q, ':'),
        q.contains('.'),
        q.len() > 0,
        parse_ipv4(q) == Some(o),
    ensures
        parse_ipv6(seq![':', ':'] + q) == Some(
            zeros(6) + seq![segment_of(o[0], o[1]), segment_of(o[2], o[3])],
        ),
{
    reveal(parse_groups);
    lemma_split_one(q, ':');
    let fields = split(q, ':');
    assert(fields.last() == q);
    assert(fields.drop_last() =~= Seq::<Seq<char>>::empty());
    assert(parse_hex_fields(fields.drop_last()) == Some(Seq::<u16>::empty())) by {
        assert(Seq::new(0, |i: int| parse_hex_group(fields.drop_last()[i])->0)
            =~= Seq::<u16>::empty());
    }
    let l = seq![segment_of(o[0], o[1]), segment_of(o[2], o[3])];
    assert(Seq::<u16>::empty() + l =~= l);
    lemma_parse_after_gap(q, l);
}

/// The text of an address that is compatible with an IPv4 address denotes
/// the address.
proof fn lemma_round_trip_compatible(s: Seq<u16>)
    requires
        s.len() == 8,
        all_zero(s, 0, 6),
    ensures
        parse_ipv6(seq![':', ':'] + embedded_quad(s)) == Some(s),
{
    let q = embedded_quad(s);
    lemma_parse_embedded_quad(s);
    let o = parse_ipv4(q)->0;
    lemma_parse_compatible(q, o);
    let l = seq![segment_of(o[0], o[1]), segment_of(o[2], o[3])];
    assert(l[0] == s[6] && l[1] == s[7]);
    assert(zeros(6) + l =~= s);
}

/// Groups, a colon and a dotted quad denote the segments of the groups
/// and the two segments of the quad.
proof fn lemma_parse_groups_before_quad(h: Seq<u16>, q: Seq<char>, o: Seq<u8>)
    requires
        h.len() >= 1,
        free_of(q, ':'),
        q.contains('.'),
        parse_ipv4(q) == Some(o),
    ensures
        parse_groups(hex_groups(h) + seq![':'] + q) == Some(
            h + seq![segment_of(o[0], o[1]), segment_of(o[2], o[3])],
        ),
{
    reveal(parse_groups);
    let x = hex_groups(h);
    let t = x + seq![':'] + q;
    lemma_hex_groups_fields(h);
    lemma_split_joined(x, ':', q);
    let fields = split(t, ':');
    assert(fields.last() == q);
    assert(fields.drop_last() =~= split(x, ':'));
    lemma_parse_hex_fields(h);
}

/// The hexadecimal text of the segment `ffff`.
proof fn lemma_lower_hex_ffff()
    ensures
        hex_groups(seq![0xffffu16]) == seq!['f', 'f', 'f', 'f'],
{
    assert(lower_hex(0xf) =~= seq!['f']);
    assert(lower_hex(0xff) =~= seq!['f', 'f']);
    assert(lower_hex(0xfff) =~= seq!['f', 'f', 'f']);
    assert(lower_hex(0xffff) =~= seq!['f', 'f', 'f', 'f']);
}

/// `::ffff:` and a dotted quad denote five zero segments, the segment
/// `ffff` and the two segments of the quad.
proof fn lemma_parse_mapped(q: Seq<char>, o: Seq<u8>)
    requires
        free_of(q, ':'),
        q.contains('.'),
        parse_ipv4(q) == Some(o),
    ensures
        parse_ipv6(seq![':', ':', 'f', 'f', 'f', 'f', ':'] + q) == Some(
            zeros(5) + seq![0xffffu16, segment_of(o[0], o[1]), segment_of(o[2], o[3])],
        ),
{
    let h = seq![0xffffu16];
    lemma_lower_hex_ffff();
    lemma_parse_groups_before_quad(h, q, o);
    let tail = hex_groups(h) + seq![':'] + q;
    let l = h + seq![segment_of(o[0], o[1]), segment_of(o[2], o[3])];
    lemma_parse_after_gap(tail, l);
    assert(seq![':', ':'] + tail =~= seq![':', ':', 'f', 'f', 'f', 'f', ':'] + q);
    assert(l =~= seq![0xffffu16, segment_of(o[0], o[1]), segment_of(o[2], o[3])]);
}

/// The text of an address that maps an IPv4 address denotes the address.
proof fn lemma_round_trip_mapped(s: Seq<u16>)
    requires
        s.len() == 8,
        all_zero(s, 0, 5),
        s[5] == 0xffff,
    ensures
        parse_ipv6(seq![':', ':', 'f', 'f', 'f', 'f', ':'] + embedded_quad(s)) == Some(s),
{
    let q = embedded_quad(s);
    lemma_parse_embedded_quad(s);
    let o = parse_ipv4(q)->0;
    lemma_parse_mapped(q, o);
    let l = seq![0xffffu16, segment_of(o[0], o[1]), segment_of(o[2], o[3])];
    assert(l[1] == s[6] && l[2] == s[7]) by {
        let m = seq![segment_of(o[0], o[1]), segment_of(o[2], o[3])];
        assert(m[0] == s[6] && m[1] == s[7]);
    }
    assert(zeros(5) + l =~= s);
}

/// The groups before a run of zero segments, `::` and the groups after the
/// run denote the eight segments.
proof fn lemma_round_trip_compressed(s: Seq<u16>, at: int, len: int)
    requires
        s.len() == 8,
        0 <= at,
        1 <= len,
        at + len <= 8,
        all_zero(s, at, at + len),
    ensures
        parse_ipv6(
            hex_groups(s.subrange(0, at)) + seq![':', ':'] + hex_groups(s.subrange(at + len, 8)),
        ) == Some(s),
{
    let h = s.subrange(0, at);
    let l = s.subrange(at + len, 8);
    let head = hex_groups(h);
    let tail = hex_groups(l);
    assert(no_double_colon(head) && (head.len() > 0 ==> head.last() != ':')) by {
        if h.len() > 0 {
            lemma_hex_groups_fields(h);
        }
    }
    lemma_parse_hex_text(h);
    lemma_parse_hex_text(l);
    lemma_parse_around_gap(head, tail, h, l);
    assert(h + zeros(8 - h.len() - l.len()) + l =~= s);
}

/// Eight groups joined by colons denote the eight segments.
proof fn lemma_round_trip_plain(s: Seq<u16>)
    requires
        s.len() == 8,
    ensures
        parse_ipv6(hex_groups(s)) == Some(s),
{
    reveal(parse_ipv6);
    lemma_hex_groups_fields(s);
    lemma_first_double_colon_absent(hex_groups(s));
    lemma_parse_hex_text(s);
}

/// The canonical text of an IPv6 address denotes its eight segments.
pub proof fn lemma_ipv6_text_round_trip(s: Seq<u16>)
    requires
        s.len() == 8,
    ensures
        parse_ipv6(ipv6_text(s)) == Some(s),
{
    if s == octo(0, 0, 0, 0, 0, 0, 0, 0) {
        lemma_round_trip_unspecified(s);
    } else if s == octo(0, 0, 0, 0, 0, 0, 0, 1) {
        lemma_round_trip_loopback(s);
    } else if all_zero(s, 0, 6) {
        lemma_round_trip_compatible(s);
    } else if all_zero(s, 0, 5) && s[5] == 0xffff {
        lemma_round_trip_mapped(s);
    } else {
        lemma_longest_zero_run_exists(s);
        let (at, len) = longest_zero_run(s);
        if len > 1 {
            lemma_round_trip_compressed(s, at, len);
        } else {
            lemma_round_trip_plain(s);
        }
    }
}

/// The address of either family that a text denotes: the IPv4 address if
/// the text is a dotted quad, else the IPv6 address if it is the text of
/// one.
pub open spec fn parse_ip(t: Seq<char>) -> Option<IpAddrView> {
    match parse_ipv4(t) {
        Some(o) => Some(IpAddrView::V4(o)),
        None => match parse_ipv6(t) {
            Some(s) => Some(IpAddrView::V6(s)),
            None => None,
        },
    }
}

/// The canonical text of an address of either family.
pub open spec fn ip_text(a: IpAddrView) -> Seq<char> {
    match a {
        IpAddrView::V4(o) => ipv4_text(o),
        IpAddrView::V6(s) => ipv6_text(s),
    }
}

/// A character other than the separator stands in one of the fields.
pub proof fn lemma_split_keeps(t: Seq<char>, c: char, i: int) -> (j: int)
    requires
        0 <= i < t.len(),
        t[i] != c,
    ensures
        0 <= j < split(t, c).len(),
        split(t, c)[j].contains(t[i]),
    decreases t.len(),
{
    let k = last_index_of(t, c);
    lemma_last_index_bounds(t, c);
    if 0 <= k < t.len() {
        if i > k {
            let f = t.skip(k + 1);
            assert(f[i - k - 1] == t[i]);
            split(t.take(k), c).len() as int
        } else {
            let x = t.take(k);
            assert(x[i] == t[i]);
            let j = lemma_split_keeps(x, c, i);
            assert(split(t, c)[j] == split(x, c)[j]);
            j
        }
    } else {
        0
    }
}

/// A text that holds a colon is no dotted quad.
pub proof fn lemma_colon_is_no_quad(t: Seq<char>)
    requires
        t.contains(':'),
    ensures
        parse_ipv4(t) is None,
{
    reveal(parse_ipv4);
    let i = choose|i: int| 0 <= i < t.len() && t[i] == ':';
    let j = lemma_split_keeps(t, '.', i);
    let f = split(t, '.')[j];
    if decimal_value(f) is Some {
        lemma_decimal_value_digits(f);
        let m = choose|m: int| 0 <= m < f.len() && f[m] == ':';
        assert(decimal_digit_value(f[m]) is Some);
    }
}

/// The canonical text of an IPv6 address holds a colon.
pub proof fn lemma_ipv6_text_holds_colon(s: Seq<u16>)
    requires
        s.len() == 8,
    ensures
        ipv6_text(s).contains(':'),
{
    let t = ipv6_text(s);
    if s == octo(0, 0, 0, 0, 0, 0, 0, 0) {
        assert(t[0] == ':');
    } else if s == octo(0, 0, 0, 0, 0, 0, 0, 1) {
        assert(t[0] == ':');
    } else if all_zero(s, 0, 6) {
        assert(t[0] == ':');
    } else if all_zero(s, 0, 5) && s[5] == 0xffff {
        assert(t[0] == ':');
    } else {
        let (at, len) = longest_zero_run(s);
        if len > 1 {
            let head = hex_groups(s.subrange(0, at));
            assert(t[head.len() as int] == ':');
        } else {
            let x = hex_groups(s.drop_last());
            assert(t == x + seq![':'] + lower_hex(s.last() as nat));
            assert(t[x.len() as int] == ':');
        }
    }
}

/// The canonical text of an address of either family denotes that address.
pub proof fn lemma_ip_text_round_trip(a: IpAddrView)
    requires
        a matches IpAddrView::V4(o) ==> o.len() == 4,
        a matches IpAddrView::V6(s) ==> s.len() == 8,
    ensures
        parse_ip(ip_text(a)) == Some(a),
{
    match a {
        IpAddrView::V4(o) => {
            lemma_ipv4_text_round_trip(o);
        },
        IpAddrView::V6(s) => {
            lemma_ipv6_text_holds_colon(s);
            lemma_colon_is_no_quad(ipv6_text(s));
            lemma_ipv6_text_round_trip(s);
        },
    }
}

} // verus!
