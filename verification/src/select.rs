//! Longest-prefix selection among overlapping ranges.
//!
//! The ranges of one dataset may nest. Among the blocks whose range holds a
//! key, the authoritative one has the largest prefix length; where several
//! share that length, the one that stands first in the table is taken.

use crate::rows::{AsnBlock, CityBlock, CountryBlock, Span};
use vstd::prelude::*;

verus! {

/// Whether `span` is of address family `version` and its range holds `key`.
pub open spec fn covers(span: Span, version: i64, key: i64) -> bool {
    span.ip_version == version && span.network_start <= key && key <= span.network_end
}

/// Whether `i` is the authoritative match for `key` among `spans`: it covers
/// the key, nothing that covers the key is more specific, and nothing before
/// it that covers the key is as specific.
pub open spec fn is_best_match(spans: Seq<Span>, version: i64, key: i64, i: int) -> bool {
    &&& 0 <= i < spans.len()
    &&& covers(spans[i], version, key)
    &&& forall|j: int|
        0 <= j < spans.len() && covers(#[trigger] spans[j], version, key)
            ==> spans[j].prefix_length <= spans[i].prefix_length
    &&& forall|j: int|
        0 <= j < i && covers(#[trigger] spans[j], version, key) ==> spans[j].prefix_length
            < spans[i].prefix_length
}

/// The index of the authoritative match for `key` among `spans`, if any span
/// covers the key.
pub open spec fn best_match(spans: Seq<Span>, version: i64, key: i64) -> Option<int> {
    if exists|i: int| is_best_match(spans, version, key, i) {
        Some(choose|i: int| is_best_match(spans, version, key, i))
    } else {
        None
    }
}

/// A block of a range dataset: a record that carries a `Span`.
pub trait Ranged {
    /// The span of this block.
    spec fn span_of(&self) -> Span;

    /// The span of this block.
    fn span(&self) -> (span: Span)
        ensures
            span == self.span_of(),
    ;
}

impl Ranged for AsnBlock {
    open spec fn span_of(&self) -> Span {
        self.span
    }

    fn span(&self) -> (span: Span) {
        self.span
    }
}

impl Ranged for CountryBlock {
    open spec fn span_of(&self) -> Span {
        self.span
    }

    fn span(&self) -> (span: Span) {
        self.span
    }
}

impl Ranged for CityBlock {
    open spec fn span_of(&self) -> Span {
        self.span
    }

    fn span(&self) -> (span: Span) {
        self.span
    }
}

/// The spans of a table, in table order.
pub open spec fn spans_of<B: Ranged>(blocks: Seq<B>) -> Seq<Span> {
    Seq::new(blocks.len(), |i: int| blocks[i].span_of())
}

/// At most one index is the authoritative match.
pub proof fn lemma_best_match_unique(spans: Seq<Span>, version: i64, key: i64, i: int, j: int)
    requires
        is_best_match(spans, version, key, i),
        is_best_match(spans, version, key, j),
    ensures
        i == j,
{
    if i < j {
        assert(covers(spans[i], version, key));
    } else if j < i {
        assert(covers(spans[j], version, key));
    }
}

/// The authoritative match among the first `n` spans, found from left to
/// right: `None` exactly when none of them covers the key.
proof fn best_among_first(spans: Seq<Span>, version: i64, key: i64, n: int) -> (found: Option<
    int,
>)
    requires
        0 <= n <= spans.len(),
    ensures
        found matches Some(i) ==> is_best_match(spans.take(n), version, key, i),
        found is None ==> forall|j: int|
            0 <= j < n ==> !covers(#[trigger] spans[j], version, key),
    decreases n,
{
    if n == 0 {
        None
    } else {
        let before = best_among_first(spans, version, key, n - 1);
        let last = spans[n - 1];
        let now = spans.take(n);
        assert forall|j: int| 0 <= j < n - 1 implies now[j] == spans.take(n - 1)[j] by {}
        if !covers(last, version, key) {
            if let Some(i) = before {
                assert(now[i] == spans.take(n - 1)[i]);
                assert(is_best_match(now, version, key, i));
            }
            before
        } else {
            match before {
                Some(i) => {
                    assert(now[i] == spans.take(n - 1)[i]);
                    if last.prefix_length > now[i].prefix_length {
                        assert(is_best_match(now, version, key, n - 1));
                        Some(n - 1)
                    } else {
                        assert(is_best_match(now, version, key, i));
                        before
                    }
                },
                None => {
                    assert(is_best_match(now, version, key, n - 1));
                    Some(n - 1)
                },
            }
        }
    }
}

/// `best_match` names the authoritative match whenever some span covers the
/// key, and is `None` only when none does.
pub proof fn lemma_best_match(spans: Seq<Span>, version: i64, key: i64)
    ensures
        best_match(spans, version, key) matches Some(i) ==> is_best_match(spans, version, key, i),
        best_match(spans, version, key) is None ==> forall|j: int|
            0 <= j < spans.len() ==> !covers(#[trigger] spans[j], version, key),
{
    let found = best_among_first(spans, version, key, spans.len() as int);
    assert(spans.take(spans.len() as int) =~= spans);
    if let Some(i) = found {
        assert(is_best_match(spans, version, key, i));
    }
}

/// Longest-prefix match: whenever a span covers the key, the authoritative
/// match exists and its prefix length is at least that of every span that
/// covers the key.
pub proof fn lemma_best_match_most_specific(spans: Seq<Span>, version: i64, key: i64, j: int)
    requires
        0 <= j < spans.len(),
        covers(spans[j], version, key),
    ensures
        best_match(spans, version, key) is Some,
        covers(spans[best_match(spans, version, key)->0], version, key),
        spans[best_match(spans, version, key)->0].prefix_length >= spans[j].prefix_length,
{
    lemma_best_match(spans, version, key);
}

/// Whether `kept` is a selection of rows of `blocks`, in table order, that
/// leaves out no block that covers the key: `kept[k]` is `blocks[at[k]]`.
pub open spec fn holds_candidates<B: Ranged>(
    blocks: Seq<B>,
    kept: Seq<B>,
    at: Seq<int>,
    version: i64,
    key: i64,
) -> bool {
    &&& at.len() == kept.len()
    &&& forall|k: int|
        0 <= k < at.len() ==> 0 <= #[trigger] at[k] < blocks.len() && kept[k] == blocks[at[k]]
    &&& forall|k: int, l: int| 0 <= k < l < at.len() ==> #[trigger] at[k] < #[trigger] at[l]
    &&& forall|j: int|
        0 <= j < blocks.len() && covers((#[trigger] blocks[j]).span_of(), version, key)
            ==> exists|k: int| 0 <= k < at.len() && #[trigger] at[k] == j
}

/// The blocks that cover a key decide its match: a table cut down to them,
/// or to any rows in table order that include them, has the same
/// authoritative block as the whole table, and has none when the whole
/// table has none.
pub proof fn lemma_candidates_suffice<B: Ranged>(
    blocks: Seq<B>,
    kept: Seq<B>,
    at: Seq<int>,
    version: i64,
    key: i64,
)
    requires
        holds_candidates(blocks, kept, at, version, key),
    ensures
        best_match(spans_of(kept), version, key) matches Some(k) ==> 0 <= k < kept.len()
            && best_match(spans_of(blocks), version, key) == Some(at[k]),
        best_match(spans_of(kept), version, key) is None ==> best_match(
            spans_of(blocks),
            version,
            key,
        ) is None,
{
    let all = spans_of(blocks);
    let few = spans_of(kept);
    lemma_best_match(all, version, key);
    lemma_best_match(few, version, key);
    match best_match(few, version, key) {
        Some(k) => {
            let i = at[k];
            assert(few[k] == all[i]);
            assert forall|j: int| 0 <= j < all.len() && covers(#[trigger] all[j], version, key)
                implies all[j].prefix_length <= all[i].prefix_length && (j < i
                ==> all[j].prefix_length < all[i].prefix_length) by {
                assert(covers(blocks[j].span_of(), version, key));
                let l = choose|l: int| 0 <= l < at.len() && #[trigger] at[l] == j;
                assert(few[l] == all[j]);
                if j < i && l >= k {
                    if l > k {
                        assert(at[k] < at[l]);
                    }
                }
            }
            assert(is_best_match(all, version, key, i));
            lemma_best_match_unique(all, version, key, i, best_match(all, version, key)->0);
        },
        None => {
            if let Some(j) = best_match(all, version, key) {
                assert(covers(blocks[j].span_of(), version, key));
                let l = choose|l: int| 0 <= l < at.len() && #[trigger] at[l] == j;
                assert(few[l] == all[j]);
            }
        },
    }
}

/// The position in `blocks` of the authoritative match for `key`.
///
/// Returns the first block of largest prefix length among those of family
/// `version` whose range holds `key`, and `None` when no block covers it.
pub fn select<B: Ranged>(blocks: &Vec<B>, version: i64, key: i64) -> (found: Option<usize>)
    ensures
        found matches Some(i) ==> best_match(spans_of(blocks@), version, key) == Some(i as int),
        found is None ==> best_match(spans_of(blocks@), version, key) is None,
{
    let ghost spans = spans_of(blocks@);
    let mut best: Option<usize> = None;
    let mut best_length: i64 = 0;
    let mut i: usize = 0;
    while i < blocks.len()
        invariant
            i <= blocks.len(),
            spans == spans_of(blocks@),
            best matches Some(b) ==> b < i && best_length == spans[b as int].prefix_length
                && covers(spans[b as int], version, key),
            best matches Some(b) ==> forall|j: int|
                0 <= j < i && covers(#[trigger] spans[j], version, key) ==> spans[j].prefix_length
                    <= best_length,
            best matches Some(b) ==> forall|j: int|
                0 <= j < b && covers(#[trigger] spans[j], version, key) ==> spans[j].prefix_length
                    < best_length,
            best is None ==> forall|j: int|
                0 <= j < i ==> !covers(#[trigger] spans[j], version, key),
        decreases blocks.len() - i,
    {
        let span = blocks[i].span();
        assert(span == spans[i as int]);
        if span.ip_version == version && span.network_start <= key && key <= span.network_end {
            let better = match best {
                Some(_) => span.prefix_length > best_length,
                None => true,
            };
            if better {
                best = Some(i);
                best_length = span.prefix_length;
            }
        }
        i += 1;
    }
    proof {
        lemma_best_match(spans, version, key);
        match best {
            Some(b) => {
                assert(is_best_match(spans, version, key, b as int));
                lemma_best_match_unique(
                    spans,
                    version,
                    key,
                    b as int,
                    best_match(spans, version, key)->0,
                );
            },
            None => {
                if let Some(k) = best_match(spans, version, key) {
                    assert(covers(spans[k], version, key));
                }
            },
        }
    }
    best
}

} // verus!
