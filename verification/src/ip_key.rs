//! The IP key encoder: from the text of an address to a comparable integer.
//!
//! An IPv4 address is four decimal octets joined by dots. An IPv6 address is
//! eight hexadecimal groups joined by colons, where one `::` may stand for
//! one or more zero groups and the last two groups may be written as an
//! embedded IPv4 address. The key of an IPv4 address is its 32-bit
//! big-endian value; the key of an IPv6 address is the big-endian value of
//! its first four groups, which must fit a signed 64-bit integer.

use crate::text::{
    decimal_text, fields, group_of, lemma_decimal_text, lemma_fields_of_joined,
    lemma_fields_of_one, lemma_fields_rejoin, lemma_octet_text, octet_of, parse_group,
    parse_octet, slices, split, within,
};
use vstd::prelude::*;
use vstd::string::StringSliceAdditionalSpecFns;

verus! {

/// The byte `.`, which joins the octets of an IPv4 address.
pub const DOT: u8 = 46;

/// The byte `:`, which joins the groups of an IPv6 address.
pub const COLON: u8 = 58;

/// An address family and the integer that stands for an address within it.
#[derive(Debug, Clone, Copy, PartialEq, Eq)]
pub struct IpKey {
    pub version: i64,
    pub key: i64,
}

/// Why a text has no key.
#[derive(Debug, Clone, Copy, PartialEq, Eq)]
pub enum InvalidAddress {
    /// The text is not an address of either family.
    Malformed,
    /// The text is an IPv6 address whose first 64 bits, read as an unsigned
    /// integer, exceed the largest signed 64-bit integer.
    Unrepresentable,
}

/// The four octets that `s` writes as a dotted quad, if it is one.
pub open spec fn ipv4_of(s: Seq<u8>) -> Option<(u8, u8, u8, u8)> {
    let f = fields(s, DOT);
    if f.len() == 4 && octet_of(f[0]) is Some && octet_of(f[1]) is Some && octet_of(f[2]) is Some
        && octet_of(f[3]) is Some {
        Some((octet_of(f[0])->0, octet_of(f[1])->0, octet_of(f[2])->0, octet_of(f[3])->0))
    } else {
        None
    }
}

/// The groups that a list of fields writes, if each is a hexadecimal group.
pub open spec fn hex_groups(f: Seq<Seq<u8>>) -> Option<Seq<u16>> {
    if forall|k: int| 0 <= k < f.len() ==> group_of(#[trigger] f[k]) is Some {
        Some(Seq::new(f.len(), |k: int| group_of(f[k])->0))
    } else {
        None
    }
}

/// The two groups that hold an embedded IPv4 address.
pub open spec fn embedded(o: (u8, u8, u8, u8)) -> Seq<u16> {
    seq![(o.0 * 256 + o.1) as u16, (o.2 * 256 + o.3) as u16]
}

/// The groups that `s` writes on one side of a `::`, or as a whole address
/// without one: hexadecimal groups joined by colons, the last of which may
/// be an embedded IPv4 address where `v4_tail` allows it. The empty text
/// writes no group.
pub open spec fn groups_of(s: Seq<u8>, v4_tail: bool) -> Option<Seq<u16>> {
    if s.len() == 0 {
        Some(Seq::empty())
    } else {
        let f = fields(s, COLON);
        match hex_groups(f.drop_last()) {
            Some(front) => match group_of(f.last()) {
                Some(g) => Some(front.push(g)),
                None => match ipv4_of(f.last()) {
                    Some(o) => if v4_tail {
                        Some(front + embedded(o))
                    } else {
                        None
                    },
                    None => None,
                },
            },
            None => None,
        }
    }
}

/// Whether a `::` starts at position `j` of `s`.
pub open spec fn colons_at(s: Seq<u8>, j: int) -> bool {
    0 <= j && j + 1 < s.len() && s[j] == COLON && s[j + 1] == COLON
}

/// Index of the first `::` in `s`, or `s.len()` when there is none.
pub open spec fn double_colon(s: Seq<u8>) -> int
    decreases s.len(),
{
    if s.len() < 2 {
        s.len() as int
    } else if s[0] == COLON && s[1] == COLON {
        0
    } else {
        1 + double_colon(s.drop_first())
    }
}

/// `n` groups of zero.
pub open spec fn zero_groups(n: int) -> Seq<u16> {
    Seq::new(n as nat, |k: int| 0u16)
}

/// The eight groups that `s` writes as an IPv6 address, if it is one.
pub open spec fn ipv6_of(s: Seq<u8>) -> Option<Seq<u16>> {
    let d = double_colon(s);
    if 0 <= d < s.len() {
        match (groups_of(s.take(d), false), groups_of(s.skip(d + 2), true)) {
            (Some(head), Some(tail)) => if head.len() + tail.len() <= 7 {
                Some(head + zero_groups(8 - head.len() - tail.len()) + tail)
            } else {
                None
            },
            _ => None,
        }
    } else {
        match groups_of(s, true) {
            Some(groups) => if groups.len() == 8 {
                Some(groups)
            } else {
                None
            },
            None => None,
        }
    }
}

/// The big-endian value of four octets.
pub open spec fn ipv4_key(o: (u8, u8, u8, u8)) -> int {
    o.0 * 0x100_0000 + o.1 * 0x1_0000 + o.2 * 0x100 + o.3
}

/// The big-endian value of the first four groups, the high 64 bits of an
/// IPv6 address.
pub open spec fn ipv6_high(groups: Seq<u16>) -> int {
    groups[0] * 0x1_0000_0000_0000 + groups[1] * 0x1_0000_0000 + groups[2] * 0x1_0000 + groups[3]
}

/// The key of the address that the bytes `s` write.
pub open spec fn ip_key_of(s: Seq<u8>) -> Result<IpKey, InvalidAddress> {
    match ipv4_of(s) {
        Some(octets) => Ok(IpKey { version: 4, key: ipv4_key(octets) as i64 }),
        None => match ipv6_of(s) {
            Some(groups) => if ipv6_high(groups) <= i64::MAX {
                Ok(IpKey { version: 6, key: ipv6_high(groups) as i64 })
            } else {
                Err(InvalidAddress::Unrepresentable)
            },
            None => Err(InvalidAddress::Malformed),
        },
    }
}

/// `double_colon` stays within the sequence, points at a `::` when inside
/// it, and no `::` starts before it.
pub proof fn lemma_double_colon(s: Seq<u8>)
    ensures
        0 <= double_colon(s) <= s.len(),
        double_colon(s) < s.len() ==> colons_at(s, double_colon(s)),
        forall|j: int| 0 <= j < double_colon(s) ==> !colons_at(s, j),
    decreases s.len(),
{
    if s.len() >= 2 && !(s[0] == COLON && s[1] == COLON) {
        let t = s.drop_first();
        lemma_double_colon(t);
        assert forall|j: int| 0 <= j < double_colon(s) implies !colons_at(s, j) by {
            if j > 0 && j + 1 < s.len() {
                assert(!colons_at(t, j - 1));
                assert(s[j] == t[j - 1]);
                assert(s[j + 1] == t[j]);
            }
        }
        if double_colon(t) < t.len() {
            assert(colons_at(t, double_colon(t)));
            assert(s[double_colon(s)] == t[double_colon(t)]);
            assert(s[double_colon(s) + 1] == t[double_colon(t) + 1]);
        }
    }
}

/// The dotted quad of four octets: their decimal texts joined by dots.
pub open spec fn dotted_quad(o: (u8, u8, u8, u8)) -> Seq<u8> {
    decimal_text(o.0) + seq![DOT] + decimal_text(o.1) + seq![DOT] + decimal_text(o.2) + seq![DOT]
        + decimal_text(o.3)
}

/// The four octets of a 32-bit key, most significant first.
pub open spec fn key_octets(key: int) -> (u8, u8, u8, u8) {
    (
        (key / 0x100_0000) as u8,
        (key / 0x1_0000 % 0x100) as u8,
        (key / 0x100 % 0x100) as u8,
        (key % 0x100) as u8,
    )
}

/// The IPv4 addresses are the dotted quads: a text writes four octets
/// exactly when it is their dotted quad.
pub proof fn lemma_ipv4_text(s: Seq<u8>, o: (u8, u8, u8, u8))
    ensures
        ipv4_of(s) == Some(o) <==> s == dotted_quad(o),
{
    let d0 = decimal_text(o.0);
    let d1 = decimal_text(o.1);
    let d2 = decimal_text(o.2);
    let d3 = decimal_text(o.3);
    if s == dotted_quad(o) {
        lemma_decimal_text(o.0);
        lemma_decimal_text(o.1);
        lemma_decimal_text(o.2);
        lemma_decimal_text(o.3);
        let r2 = d2 + seq![DOT] + d3;
        let r1 = d1 + seq![DOT] + r2;
        assert(s =~= d0 + seq![DOT] + r1);
        lemma_fields_of_one(d3, DOT);
        lemma_fields_of_joined(d2, d3, DOT);
        lemma_fields_of_joined(d1, r2, DOT);
        lemma_fields_of_joined(d0, r1, DOT);
        assert(fields(s, DOT) =~= seq![d0, d1, d2, d3]);
    }
    if ipv4_of(s) == Some(o) {
        let f = fields(s, DOT);
        lemma_fields_rejoin(s, DOT);
        let r1 = choose|r: Seq<u8>|
            #![trigger fields(r, DOT)]
            s == f[0] + seq![DOT] + r && fields(r, DOT) == f.skip(1);
        lemma_fields_rejoin(r1, DOT);
        let f1 = fields(r1, DOT);
        let r2 = choose|r: Seq<u8>|
            #![trigger fields(r, DOT)]
            r1 == f1[0] + seq![DOT] + r && fields(r, DOT) == f1.skip(1);
        lemma_fields_rejoin(r2, DOT);
        let f2 = fields(r2, DOT);
        let r3 = choose|r: Seq<u8>|
            #![trigger fields(r, DOT)]
            r2 == f2[0] + seq![DOT] + r && fields(r, DOT) == f2.skip(1);
        lemma_fields_rejoin(r3, DOT);
        assert(f1[0] == f[1]);
        assert(f2[0] == f[2]);
        assert(fields(r3, DOT)[0] == f[3]);
        lemma_octet_text(f[0], o.0);
        lemma_octet_text(f[1], o.1);
        lemma_octet_text(f[2], o.2);
        lemma_octet_text(f[3], o.3);
        assert(s =~= dotted_quad(o));
    }
}

/// Every dotted quad has a key: version 4 and the 32-bit big-endian value
/// of its octets.
pub proof fn lemma_ipv4_key(o: (u8, u8, u8, u8))
    ensures
        0 <= ipv4_key(o) <= 0xffff_ffff,
        ip_key_of(dotted_quad(o)) == Ok::<IpKey, InvalidAddress>(
            IpKey { version: 4, key: ipv4_key(o) as i64 },
        ),
{
    lemma_ipv4_text(dotted_quad(o), o);
}

/// The key of an IPv4 address gives the address back: the dotted quad of
/// the key's four octets is the text that was encoded.
pub proof fn lemma_ipv4_key_round_trip(s: Seq<u8>, key: IpKey)
    requires
        ip_key_of(s) == Ok::<IpKey, InvalidAddress>(key),
        key.version == 4,
    ensures
        dotted_quad(key_octets(key.key as int)) == s,
{
    let o = ipv4_of(s)->0;
    assert(key_octets(ipv4_key(o)) == o);
    lemma_ipv4_text(s, o);
}

/// No text is an address of both families.
pub proof fn lemma_families_are_disjoint(s: Seq<u8>)
    ensures
        !(ipv4_of(s) is Some && ipv6_of(s) is Some),
{
    if ipv4_of(s) is Some && ipv6_of(s) is Some {
        let o = ipv4_of(s)->0;
        lemma_ipv4_text(s, o);
        lemma_decimal_text(o.0);
        lemma_decimal_text(o.1);
        lemma_decimal_text(o.2);
        lemma_decimal_text(o.3);
        let d0 = decimal_text(o.0);
        let d1 = decimal_text(o.1);
        let d2 = decimal_text(o.2);
        let d3 = decimal_text(o.3);
        assert forall|i: int| 0 <= i < s.len() implies s[i] != COLON by {
            let a = d0.len();
            let b = a + 1 + d1.len();
            let c = b + 1 + d2.len();
            if i < a {
                assert(s[i] == d0[i]);
            } else if i == a {
            } else if i < b {
                assert(s[i] == d1[i - a - 1]);
            } else if i == b {
            } else if i < c {
                assert(s[i] == d2[i - b - 1]);
            } else if i == c {
            } else {
                assert(s[i] == d3[i - c - 1]);
            }
        }
        lemma_double_colon(s);
        let d = double_colon(s);
        if d < s.len() {
            assert(colons_at(s, d));
        } else {
            lemma_fields_of_one(s, COLON);
            assert(fields(s, COLON).drop_last().len() == 0);
        }
    }
}

/// Every IPv6 address whose leading bit is clear has a key: version 6 and
/// the big-endian value of its first four groups. Every IPv6 address whose
/// leading bit is set is unrepresentable.
pub proof fn lemma_ipv6_key(s: Seq<u8>)
    requires
        ipv6_of(s) is Some,
    ensures
        ipv6_of(s)->0.len() == 8,
        ipv6_of(s)->0[0] < 0x8000 ==> ip_key_of(s) == Ok::<IpKey, InvalidAddress>(
            IpKey { version: 6, key: ipv6_high(ipv6_of(s)->0) as i64 },
        ) && 0 <= ipv6_high(ipv6_of(s)->0) <= i64::MAX,
        ipv6_of(s)->0[0] >= 0x8000 ==> ip_key_of(s) == Err::<IpKey, InvalidAddress>(
            InvalidAddress::Unrepresentable,
        ),
{
    lemma_families_are_disjoint(s);
}

/// A key is of version 4 or 6 and never negative, and a version 4 key fits
/// 32 bits.
pub proof fn lemma_key_range(s: Seq<u8>)
    requires
        ip_key_of(s) is Ok,
    ensures
        ip_key_of(s)->Ok_0.version == 4 || ip_key_of(s)->Ok_0.version == 6,
        ip_key_of(s)->Ok_0.version == 4 ==> 0 <= ip_key_of(s)->Ok_0.key <= 0xffff_ffff,
        ip_key_of(s)->Ok_0.version == 6 ==> 0 <= ip_key_of(s)->Ok_0.key,
{
}

/// Reads `b[start..end]` as a dotted quad.
fn parse_v4(b: &[u8], start: usize, end: usize) -> (octets: Option<(u8, u8, u8, u8)>)
    requires
        start <= end <= b.len(),
    ensures
        octets == ipv4_of(b@.subrange(start as int, end as int)),
{
    let ranges = split(b, start, end, DOT);
    if ranges.len() != 4 {
        return None;
    }
    proof {
        let f = fields(b@.subrange(start as int, end as int), DOT);
        assert(f.len() == 4);
        assert(f[0] == slices(b@, ranges@)[0]);
        assert(f[1] == slices(b@, ranges@)[1]);
        assert(f[2] == slices(b@, ranges@)[2]);
        assert(f[3] == slices(b@, ranges@)[3]);
    }
    let first = parse_octet(b, ranges[0].0, ranges[0].1);
    let second = parse_octet(b, ranges[1].0, ranges[1].1);
    let third = parse_octet(b, ranges[2].0, ranges[2].1);
    let fourth = parse_octet(b, ranges[3].0, ranges[3].1);
    match (first, second, third, fourth) {
        (Some(o0), Some(o1), Some(o2), Some(o3)) => Some((o0, o1, o2, o3)),
        _ => None,
    }
}

/// Reads `b[start..end]` as the groups on one side of a `::`.
fn parse_groups(b: &[u8], start: usize, end: usize, v4_tail: bool) -> (groups: Option<
    Vec<u16>,
>)
    requires
        start <= end <= b.len(),
    ensures
        groups matches Some(g) ==> groups_of(b@.subrange(start as int, end as int), v4_tail)
            == Some(g@),
        groups is None ==> groups_of(b@.subrange(start as int, end as int), v4_tail) is None,
{
    let mut groups: Vec<u16> = Vec::new();
    if start == end {
        assert(groups@ =~= Seq::<u16>::empty());
        return Some(groups);
    }
    let ghost s = b@.subrange(start as int, end as int);
    let ghost f = fields(s, COLON);
    let ranges = split(b, start, end, COLON);
    assert(f.len() >= 1);
    let last = ranges.len() - 1;
    let mut k: usize = 0;
    while k < last
        invariant
            k <= last == ranges.len() - 1,
            start < end <= b.len(),
            f == fields(b@.subrange(start as int, end as int), COLON),
            f == slices(b@, ranges@),
            within(ranges@, start, end),
            groups@.len() == k,
            forall|j: int| 0 <= j < k ==> group_of(#[trigger] f[j]) == Some(groups@[j]),
        decreases last - k,
    {
        assert(f[k as int] == b@.subrange(ranges@[k as int].0 as int, ranges@[k as int].1 as int));
        match parse_group(b, ranges[k].0, ranges[k].1) {
            Some(g) => {
                groups.push(g);
            },
            None => {
                assert(f.drop_last()[k as int] == f[k as int]);
                return None;
            },
        }
        k += 1;
    }
    proof {
        assert forall|j: int| 0 <= j < f.drop_last().len() implies group_of(
            #[trigger] f.drop_last()[j],
        ) is Some by {
            assert(f.drop_last()[j] == f[j]);
        }
        assert(hex_groups(f.drop_last())->0 =~= groups@);
        assert(f.last() == b@.subrange(
            ranges@[last as int].0 as int,
            ranges@[last as int].1 as int,
        ));
    }
    let ghost front = groups@;
    let from = ranges[last].0;
    let to = ranges[last].1;
    match parse_group(b, from, to) {
        Some(g) => {
            groups.push(g);
            Some(groups)
        },
        None => {
            if !v4_tail {
                return None;
            }
            match parse_v4(b, from, to) {
                Some((o0, o1, o2, o3)) => {
                    groups.push(o0 as u16 * 256 + o1 as u16);
                    groups.push(o2 as u16 * 256 + o3 as u16);
                    assert(groups@ =~= front + embedded((o0, o1, o2, o3)));
                    Some(groups)
                },
                None => None,
            }
        },
    }
}

/// The position of the first `::` in `b`, or `b.len()` if there is none.
fn find_double_colon(b: &[u8]) -> (i: usize)
    ensures
        i == double_colon(b@),
{
    if b.len() < 2 {
        return b.len();
    }
    let stop = b.len() - 1;
    let mut i: usize = 0;
    while i < stop && !(b[i] == COLON && b[i + 1] == COLON)
        invariant
            i <= stop == b.len() - 1,
            forall|j: int| 0 <= j < i ==> !colons_at(b@, j),
        decreases stop - i,
    {
        i += 1;
    }
    proof {
        lemma_double_colon(b@);
        let d = double_colon(b@);
        if i < stop {
            assert(colons_at(b@, i as int));
        } else if d < b.len() {
            assert(colons_at(b@, d));
        }
    }
    if i < stop {
        i
    } else {
        b.len()
    }
}

/// Reads `b` as an IPv6 address.
fn parse_v6(b: &[u8]) -> (groups: Option<Vec<u16>>)
    ensures
        groups matches Some(g) ==> ipv6_of(b@) == Some(g@) && g@.len() == 8,
        groups is None ==> ipv6_of(b@) is None,
{
    let d = find_double_colon(b);
    proof {
        lemma_double_colon(b@);
    }
    if d >= b.len() {
        assert(b@.subrange(0, b.len() as int) =~= b@);
        return match parse_groups(b, 0, b.len(), true) {
            Some(g) => if g.len() == 8 {
                Some(g)
            } else {
                None
            },
            None => None,
        };
    }
    assert(b@.take(d as int) =~= b@.subrange(0, d as int));
    assert(b@.skip(d + 2) =~= b@.subrange(d + 2, b.len() as int));
    let head = match parse_groups(b, 0, d, false) {
        Some(h) => h,
        None => {
            return None;
        },
    };
    let tail = match parse_groups(b, d + 2, b.len(), true) {
        Some(t) => t,
        None => {
            return None;
        },
    };
    if head.len() > 7 || tail.len() > 7 - head.len() {
        return None;
    }
    let gap = 8 - head.len() - tail.len();
    let mut groups = head;
    let ghost front = groups@;
    let mut k: usize = 0;
    while k < gap
        invariant
            k <= gap,
            groups@ == front + zero_groups(k as int),
        decreases gap - k,
    {
        groups.push(0);
        assert(groups@ =~= front + zero_groups(k + 1));
        k += 1;
    }
    let mut k: usize = 0;
    while k < tail.len()
        invariant
            k <= tail.len(),
            groups@ == front + zero_groups(gap as int) + tail@.take(k as int),
        decreases tail.len() - k,
    {
        groups.push(tail[k]);
        assert(groups@ =~= front + zero_groups(gap as int) + tail@.take(k + 1));
        k += 1;
    }
    assert(tail@.take(tail.len() as int) =~= tail@);
    Some(groups)
}

/// Encodes the bytes of an IP address as its key.
///
/// A dotted quad gives version 4 and the 32-bit big-endian value of its
/// octets. An IPv6 address gives version 6 and the big-endian value of its
/// first 64 bits, unless that value exceeds the largest signed 64-bit
/// integer: then the address is `Unrepresentable`. Any other text is
/// `Malformed`.
pub fn encode(ip: &[u8]) -> (key: Result<IpKey, InvalidAddress>)
    ensures
        key == ip_key_of(ip@),
{
    assert(ip@.subrange(0, ip.len() as int) =~= ip@);
    match parse_v4(ip, 0, ip.len()) {
        Some((o0, o1, o2, o3)) => {
            let key = o0 as i64 * 0x100_0000 + o1 as i64 * 0x1_0000 + o2 as i64 * 0x100 + o3 as i64;
            Ok(IpKey { version: 4, key })
        },
        None => match parse_v6(ip) {
            Some(g) => {
                let high = g[0] as u64 * 0x1_0000_0000_0000 + g[1] as u64 * 0x1_0000_0000 + g[2] as u64
                    * 0x1_0000 + g[3] as u64;
                if high > i64::MAX as u64 {
                    Err(InvalidAddress::Unrepresentable)
                } else {
                    Ok(IpKey { version: 6, key: high as i64 })
                }
            },
            None => Err(InvalidAddress::Malformed),
        },
    }
}

/// Encodes the text of an IP address as its key: the key of its UTF-8 bytes.
pub fn parse_ip(ip: &str) -> (key: Result<IpKey, InvalidAddress>)
    ensures
        key == ip_key_of(ip.spec_bytes()),
{
    encode(ip.as_bytes())
}

} // verus!
