//! Lexical helpers over byte strings: separators, fields and numerals.

use vstd::prelude::*;

verus! {

/// Index of the first occurrence of `c` in `s`, or `s.len()` when `c` does
/// not occur.
pub open spec fn first_index(s: Seq<u8>, c: u8) -> int
    decreases s.len(),
{
    if s.len() == 0 {
        0
    } else if s[0] == c {
        0
    } else {
        1 + first_index(s.drop_first(), c)
    }
}

/// `first_index` stays within the sequence, points at `c` when inside it,
/// and nothing before it equals `c`.
pub proof fn lemma_first_index(s: Seq<u8>, c: u8)
    ensures
        0 <= first_index(s, c) <= s.len(),
        first_index(s, c) < s.len() ==> s[first_index(s, c)] == c,
        forall|j: int| 0 <= j < first_index(s, c) ==> s[j] != c,
    decreases s.len(),
{
    if s.len() > 0 && s[0] != c {
        let t = s.drop_first();
        lemma_first_index(t, c);
        assert forall|j: int| 0 <= j < first_index(s, c) implies s[j] != c by {
            if j > 0 {
                assert(s[j] == t[j - 1]);
            }
        }
    }
}

/// A position is the first index of `c` once nothing before it equals `c`
/// and it is either the end or holds `c`.
pub proof fn lemma_first_index_at(s: Seq<u8>, c: u8, k: int)
    requires
        0 <= k <= s.len(),
        forall|j: int| 0 <= j < k ==> s[j] != c,
        k < s.len() ==> s[k] == c,
    ensures
        first_index(s, c) == k,
{
    lemma_first_index(s, c);
}

/// The fields of `s`: the stretches between occurrences of `sep`, in order.
/// There is always at least one field, and a field may be empty.
pub open spec fn fields(s: Seq<u8>, sep: u8) -> Seq<Seq<u8>>
    decreases s.len(),
{
    let i = first_index(s, sep);
    if 0 <= i < s.len() {
        seq![s.take(i)] + fields(s.skip(i + 1), sep)
    } else {
        seq![s]
    }
}

/// A text in which `sep` does not occur is its own single field.
pub proof fn lemma_fields_of_one(s: Seq<u8>, sep: u8)
    requires
        forall|i: int| 0 <= i < s.len() ==> s[i] != sep,
    ensures
        fields(s, sep) == seq![s],
{
    lemma_first_index_at(s, sep, s.len() as int);
}

/// A text that begins with a stretch free of `sep` and then `sep` has that
/// stretch as its first field, and the fields of what follows after it.
pub proof fn lemma_fields_of_joined(head: Seq<u8>, rest: Seq<u8>, sep: u8)
    requires
        forall|i: int| 0 <= i < head.len() ==> head[i] != sep,
    ensures
        fields(head + seq![sep] + rest, sep) == seq![head] + fields(rest, sep),
{
    let s = head + seq![sep] + rest;
    lemma_first_index_at(s, sep, head.len() as int);
    assert(s.take(head.len() as int) =~= head);
    assert(s.skip(head.len() as int + 1) =~= rest);
}

/// A text with more than one field is its first field, then `sep`, then a
/// text that has the remaining fields; the first field is free of `sep`.
/// A text with one field is that field and is free of `sep`.
pub proof fn lemma_fields_rejoin(s: Seq<u8>, sep: u8)
    ensures
        fields(s, sep).len() >= 1,
        forall|i: int| 0 <= i < fields(s, sep)[0].len() ==> fields(s, sep)[0][i] != sep,
        fields(s, sep).len() == 1 ==> fields(s, sep)[0] == s,
        fields(s, sep).len() > 1 ==> exists|rest: Seq<u8>|
            #![trigger fields(rest, sep)]
            s == fields(s, sep)[0] + seq![sep] + rest && fields(rest, sep) == fields(s, sep).skip(
                1,
            ),
{
    lemma_first_index(s, sep);
    let i = first_index(s, sep);
    if i < s.len() {
        let rest = s.skip(i + 1);
        assert(fields(s, sep) == seq![s.take(i)] + fields(rest, sep));
        assert(s =~= s.take(i) + seq![sep] + rest);
        assert(fields(s, sep).skip(1) =~= fields(rest, sep));
    }
}

/// The stretches of `b` that `ranges` delimits, each from its first
/// component up to but without its second.
pub open spec fn slices(b: Seq<u8>, ranges: Seq<(usize, usize)>) -> Seq<Seq<u8>> {
    Seq::new(ranges.len(), |k: int| b.subrange(ranges[k].0 as int, ranges[k].1 as int))
}

/// Whether every range of `ranges` lies within `start..end`.
pub open spec fn within(ranges: Seq<(usize, usize)>, start: usize, end: usize) -> bool {
    forall|k: int|
        0 <= k < ranges.len() ==> start <= (#[trigger] ranges[k]).0 <= ranges[k].1 <= end
}

/// The position of the first `c` in `b[from..end]`, or `end` if there is none.
pub(crate) fn find(b: &[u8], from: usize, end: usize, c: u8) -> (i: usize)
    requires
        from <= end <= b.len(),
    ensures
        from <= i <= end,
        i - from == first_index(b@.subrange(from as int, end as int), c),
{
    let mut i = from;
    while i < end && b[i] != c
        invariant
            from <= i <= end <= b.len(),
            forall|j: int| from <= j < i ==> b@[j] != c,
        decreases end - i,
    {
        i += 1;
    }
    proof {
        let s = b@.subrange(from as int, end as int);
        assert forall|j: int| 0 <= j < i - from implies s[j] != c by {
            assert(s[j] == b@[from + j]);
        }
        lemma_first_index_at(s, c, i - from);
    }
    i
}

/// Splits `b[start..end]` at every `sep` and returns where each field lies.
pub(crate) fn split(b: &[u8], start: usize, end: usize, sep: u8) -> (ranges: Vec<(usize, usize)>)
    requires
        start <= end <= b.len(),
    ensures
        slices(b@, ranges@) == fields(b@.subrange(start as int, end as int), sep),
        within(ranges@, start, end),
{
    let ghost whole = b@.subrange(start as int, end as int);
    let mut ranges: Vec<(usize, usize)> = Vec::new();
    let mut pos = start;
    let mut i = find(b, pos, end, sep);
    assert(slices(b@, ranges@) + fields(b@.subrange(pos as int, end as int), sep) =~= fields(
        whole,
        sep,
    ));
    while i < end
        invariant
            start <= pos <= i <= end <= b.len(),
            whole == b@.subrange(start as int, end as int),
            i - pos == first_index(b@.subrange(pos as int, end as int), sep),
            fields(whole, sep) == slices(b@, ranges@) + fields(
                b@.subrange(pos as int, end as int),
                sep,
            ),
            within(ranges@, start, end),
        decreases end - pos,
    {
        let ghost rest = b@.subrange(pos as int, end as int);
        let ghost before = ranges@;
        ranges.push((pos, i));
        proof {
            assert(rest.take(i - pos) =~= b@.subrange(pos as int, i as int));
            assert(rest.skip(i - pos + 1) =~= b@.subrange(i + 1, end as int));
            assert(slices(b@, ranges@) =~= slices(b@, before) + seq![
                b@.subrange(pos as int, i as int),
            ]);
            assert(fields(rest, sep) == seq![rest.take(i - pos)] + fields(
                rest.skip(i - pos + 1),
                sep,
            ));
            assert(fields(whole, sep) =~= slices(b@, ranges@) + fields(
                b@.subrange(i + 1, end as int),
                sep,
            ));
        }
        pos = i + 1;
        i = find(b, pos, end, sep);
    }
    let ghost rest = b@.subrange(pos as int, end as int);
    let ghost before = ranges@;
    ranges.push((pos, i));
    proof {
        assert(fields(rest, sep) == seq![rest]);
        assert(slices(b@, ranges@) =~= slices(b@, before) + seq![rest]);
    }
    ranges
}

/// Whether `c` is an ASCII decimal digit.
pub open spec fn is_digit(c: u8) -> bool {
    48 <= c <= 57
}

/// The value of a hexadecimal digit in either case, if `c` is one.
pub open spec fn hex_digit(c: u8) -> Option<int> {
    if 48 <= c <= 57 {
        Some(c - 48)
    } else if 97 <= c <= 102 {
        Some(c - 87)
    } else if 65 <= c <= 70 {
        Some(c - 55)
    } else {
        None
    }
}

/// The number that a run of decimal digits writes.
pub open spec fn decimal_value(s: Seq<u8>) -> int
    decreases s.len(),
{
    if s.len() == 0 {
        0
    } else {
        10 * decimal_value(s.drop_last()) + (s.last() - 48)
    }
}

/// The number that a run of hexadecimal digits writes.
pub open spec fn hex_value(s: Seq<u8>) -> int
    decreases s.len(),
{
    if s.len() == 0 {
        0
    } else {
        16 * hex_value(s.drop_last()) + hex_digit(s.last()).unwrap_or(0)
    }
}

/// Whether every byte of `s` is a decimal digit.
pub open spec fn all_digits(s: Seq<u8>) -> bool {
    forall|i: int| 0 <= i < s.len() ==> is_digit(#[trigger] s[i])
}

/// Whether every byte of `s` is a hexadecimal digit.
pub open spec fn all_hex(s: Seq<u8>) -> bool {
    forall|i: int| 0 <= i < s.len() ==> hex_digit(#[trigger] s[i]) is Some
}

/// The octet that `s` writes in decimal: one to three digits, no leading
/// zero before another digit, and a value of at most 255.
pub open spec fn octet_of(s: Seq<u8>) -> Option<u8> {
    if 1 <= s.len() <= 3 && all_digits(s) && (s.len() > 1 ==> s[0] != 48) && decimal_value(s)
        <= 255 {
        Some(decimal_value(s) as u8)
    } else {
        None
    }
}

/// The 16-bit group that `s` writes in hexadecimal: one to four digits.
pub open spec fn group_of(s: Seq<u8>) -> Option<u16> {
    if 1 <= s.len() <= 4 && all_hex(s) {
        Some(hex_value(s) as u16)
    } else {
        None
    }
}

/// The decimal text of an octet, without leading zeros.
pub open spec fn decimal_text(n: u8) -> Seq<u8> {
    if n < 10 {
        seq![(48 + n) as u8]
    } else if n < 100 {
        seq![(48 + n / 10) as u8, (48 + n % 10) as u8]
    } else {
        seq![(48 + n / 100) as u8, (48 + (n / 10) % 10) as u8, (48 + n % 10) as u8]
    }
}

/// The decimal text of an octet is made of digits and writes that octet.
pub proof fn lemma_decimal_text(n: u8)
    ensures
        all_digits(decimal_text(n)),
        octet_of(decimal_text(n)) == Some(n),
{
    let t = decimal_text(n);
    reveal_with_fuel(decimal_value, 4);
    if n < 10 {
        assert(t.drop_last() =~= Seq::<u8>::empty());
    } else if n < 100 {
        assert(t.drop_last() =~= seq![t[0]]);
        assert(t.drop_last().drop_last() =~= Seq::<u8>::empty());
    } else {
        assert(t.drop_last() =~= seq![t[0], t[1]]);
        assert(t.drop_last().drop_last() =~= seq![t[0]]);
        assert(t.drop_last().drop_last().drop_last() =~= Seq::<u8>::empty());
    }
}

/// An octet has one text only: whatever writes it is its decimal text.
pub proof fn lemma_octet_text(s: Seq<u8>, n: u8)
    requires
        octet_of(s) == Some(n),
    ensures
        s == decimal_text(n),
{
    reveal_with_fuel(decimal_value, 4);
    assert(is_digit(s[0]));
    if s.len() == 1 {
        assert(s.drop_last() =~= Seq::<u8>::empty());
        assert(s =~= decimal_text(n));
    } else if s.len() == 2 {
        assert(is_digit(s[1]));
        assert(s.drop_last() =~= seq![s[0]]);
        assert(s.drop_last().drop_last() =~= Seq::<u8>::empty());
        assert(s =~= decimal_text(n));
    } else {
        assert(is_digit(s[1]));
        assert(is_digit(s[2]));
        assert(s.drop_last() =~= seq![s[0], s[1]]);
        assert(s.drop_last().drop_last() =~= seq![s[0]]);
        assert(s.drop_last().drop_last().drop_last() =~= Seq::<u8>::empty());
        assert(s =~= decimal_text(n));
    }
}

/// Reads `b[start..end]` as a decimal octet.
pub(crate) fn parse_octet(b: &[u8], start: usize, end: usize) -> (octet: Option<u8>)
    requires
        start <= end <= b.len(),
    ensures
        octet == octet_of(b@.subrange(start as int, end as int)),
{
    let ghost s = b@.subrange(start as int, end as int);
    if end - start == 0 || end - start > 3 {
        return None;
    }
    if end - start > 1 && b[start] == 48 {
        assert(s[0] == 48);
        return None;
    }
    let mut value: u32 = 0;
    let mut i = start;
    while i < end
        invariant
            start <= i <= end <= b.len(),
            end - start <= 3,
            s == b@.subrange(start as int, end as int),
            all_digits(b@.subrange(start as int, i as int)),
            value == decimal_value(b@.subrange(start as int, i as int)),
            i - start == 0 ==> value == 0,
            i - start == 1 ==> value <= 9,
            i - start == 2 ==> value <= 99,
            value <= 999,
        decreases end - i,
    {
        let c = b[i];
        if c < 48 || c > 57 {
            assert(!is_digit(s[i - start]));
            return None;
        }
        proof {
            let next = b@.subrange(start as int, i + 1);
            assert(next.drop_last() =~= b@.subrange(start as int, i as int));
            assert forall|j: int| 0 <= j < next.len() implies is_digit(#[trigger] next[j]) by {
                if j < i - start {
                    assert(next[j] == b@.subrange(start as int, i as int)[j]);
                }
            }
        }
        value = value * 10 + (c - 48) as u32;
        i += 1;
    }
    if value > 255 {
        None
    } else {
        Some(value as u8)
    }
}

/// Reads `b[start..end]` as a hexadecimal 16-bit group.
pub(crate) fn parse_group(b: &[u8], start: usize, end: usize) -> (group: Option<u16>)
    requires
        start <= end <= b.len(),
    ensures
        group == group_of(b@.subrange(start as int, end as int)),
{
    let ghost s = b@.subrange(start as int, end as int);
    if end - start == 0 || end - start > 4 {
        return None;
    }
    let mut value: u32 = 0;
    let mut i = start;
    while i < end
        invariant
            start <= i <= end <= b.len(),
            end - start <= 4,
            s == b@.subrange(start as int, end as int),
            all_hex(b@.subrange(start as int, i as int)),
            value == hex_value(b@.subrange(start as int, i as int)),
            i - start == 0 ==> value == 0,
            i - start == 1 ==> value <= 0xf,
            i - start == 2 ==> value <= 0xff,
            i - start == 3 ==> value <= 0xfff,
            value <= 0xffff,
        decreases end - i,
    {
        let c = b[i];
        let digit: u32 = if 48 <= c && c <= 57 {
            (c - 48) as u32
        } else if 97 <= c && c <= 102 {
            (c - 87) as u32
        } else if 65 <= c && c <= 70 {
            (c - 55) as u32
        } else {
            assert(hex_digit(s[i - start]) is None);
            return None;
        };
        proof {
            let next = b@.subrange(start as int, i + 1);
            assert(next.drop_last() =~= b@.subrange(start as int, i as int));
            assert forall|j: int| 0 <= j < next.len() implies hex_digit(
                #[trigger] next[j],
            ) is Some by {
                if j < i - start {
                    assert(next[j] == b@.subrange(start as int, i as int)[j]);
                }
            }
        }
        value = value * 16 + digit;
        i += 1;
    }
    Some(value as u16)
}

} // verus!
