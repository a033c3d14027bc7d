//! N-gram extraction from source text.
//!
//! - [`extract_ngrams`]: index time, every byte bigram inside a token, with
//!   border bigrams weighted double and weights summed per n-gram;
//! - [`extract_query_ngrams`]: query time, the distinct bigrams of the
//!   trimmed query, at most [`MAX_QUERY_NGRAMS`], each weighted one.
use rustc_hash::{FxHashMap, FxHashSet};
use crate::fx_map::{fx_get, fx_insert, fx_set_insert};
use vstd::prelude::*;
use vstd::string::StringSliceAdditionalSpecFns;

use crate::text::{trim, trim_bounds};

use super::{fx_hash, Ngram};

verus! {

broadcast use vstd::std_specs::hash::group_hash_axioms;

/// Maximum number of bigrams selected for a query.
pub const MAX_QUERY_NGRAMS: usize = 32;

/// Weight of a bigram at a token border (first or last bigram of a token).
pub const BORDER_WEIGHT: u64 = 2;

/// Weight of an interior bigram.
pub const INTERIOR_WEIGHT: u64 = 1;

/// A byte that belongs to a token: not ASCII whitespace (space, tab, line
/// feed, form feed, carriage return).
pub open spec fn is_token_byte(b: u8) -> bool {
    !(b == 0x20 || b == 0x09 || b == 0x0a || b == 0x0c || b == 0x0d)
}

/// The hash of the bigram at `s[p..p + 2]`.
pub open spec fn bigram_at(s: Seq<u8>, p: int) -> u64 {
    fx_hash(s.subrange(p, p + 2))
}

/// Weight of the in-token bigram at `p`: double when it starts or ends its token.
pub open spec fn bigram_weight(s: Seq<u8>, p: int) -> int {
    if p == 0 || !is_token_byte(s[p - 1]) || p + 2 == s.len() || !is_token_byte(s[p + 2]) {
        BORDER_WEIGHT as int
    } else {
        INTERIOR_WEIGHT as int
    }
}

/// The in-token bigrams starting before `n`, in order, with their weights.
pub open spec fn occurrences(s: Seq<u8>, n: int) -> Seq<(u64, int)>
    decreases n,
{
    if n <= 0 {
        Seq::empty()
    } else if n < s.len() && is_token_byte(s[n - 1]) && is_token_byte(s[n]) {
        occurrences(s, n - 1).push((bigram_at(s, n - 1), bigram_weight(s, n - 1)))
    } else {
        occurrences(s, n - 1)
    }
}

/// Sum the weights per key, keys in order of first occurrence.
pub open spec fn accumulate(occ: Seq<(u64, int)>) -> Seq<(u64, int)>
    decreases occ.len(),
{
    if occ.len() == 0 {
        Seq::empty()
    } else {
        let acc = accumulate(occ.drop_last());
        let o = occ.last();
        if exists|j: int| 0 <= j < acc.len() && acc[j].0 == o.0 {
            let j = choose|j: int| 0 <= j < acc.len() && acc[j].0 == o.0;
            acc.update(j, (o.0, acc[j].1 + o.1))
        } else {
            acc.push(o)
        }
    }
}

/// The weighted n-grams of a text at index time.
pub open spec fn index_ngrams(s: Seq<u8>) -> Seq<(u64, int)> {
    accumulate(occurrences(s, s.len() as int))
}

/// The keys of a sequence are pairwise distinct.
pub open spec fn distinct_keys(acc: Seq<(u64, int)>) -> bool {
    forall|i: int, j: int| 0 <= i < j < acc.len() ==> acc[i].0 != acc[j].0
}

/// The view of an extraction result: hashes with weights.
pub open spec fn weighted_view(r: Seq<(Ngram, u64)>) -> Seq<(u64, int)> {
    r.map_values(|x: (Ngram, u64)| (x.0@, x.1 as int))
}

/// The distinct bigrams among the first `n` positions of `t`, in order,
/// at most `MAX_QUERY_NGRAMS`.
pub open spec fn query_bigrams(t: Seq<u8>, n: int) -> Seq<u64>
    decreases n,
{
    if n <= 0 {
        Seq::empty()
    } else {
        let prev = query_bigrams(t, n - 1);
        if prev.len() >= MAX_QUERY_NGRAMS || n >= t.len() || prev.contains(bigram_at(t, n - 1)) {
            prev
        } else {
            prev.push(bigram_at(t, n - 1))
        }
    }
}

/// The query n-grams of a query text: the distinct bigrams of its trimmed
/// text, at most `MAX_QUERY_NGRAMS`.
pub open spec fn query_ngrams(s: Seq<u8>) -> Seq<u64> {
    query_bigrams(trim(s), trim(s).len() as int)
}

proof fn lemma_occurrence_weights(s: Seq<u8>, n: int)
    requires
        0 <= n,
    ensures
        occurrences(s, n).len() <= n,
        forall|k: int|
            0 <= k < occurrences(s, n).len() ==> 1 <= #[trigger] occurrences(s, n)[k].1 <= 2,
    decreases n,
{
    if n > 0 {
        lemma_occurrence_weights(s, n - 1);
    }
}

/// Which bigrams are indexed, position by position: the bigram at `p` (the
/// bytes `s[p]` and `s[p + 1]`) is an occurrence exactly when neither byte
/// is ASCII whitespace (space, tab, line feed, form feed, carriage return);
/// its weight is two at a token border (at the start or end of the text, or
/// next to whitespace) and one inside a token.
pub proof fn lemma_bigram_occurrence(s: Seq<u8>, p: int)
    requires
        0 <= p,
        p + 1 < s.len(),
    ensures
        (s[p] == 0x20 || s[p] == 0x09 || s[p] == 0x0a || s[p] == 0x0c || s[p] == 0x0d || s[p + 1]
            == 0x20 || s[p + 1] == 0x09 || s[p + 1] == 0x0a || s[p + 1] == 0x0c || s[p + 1]
            == 0x0d) ==> occurrences(s, p + 1) == occurrences(s, p),
        !(s[p] == 0x20 || s[p] == 0x09 || s[p] == 0x0a || s[p] == 0x0c || s[p] == 0x0d || s[p + 1]
            == 0x20 || s[p + 1] == 0x09 || s[p + 1] == 0x0a || s[p + 1] == 0x0c || s[p + 1]
            == 0x0d) ==> occurrences(s, p + 1) == occurrences(s, p).push(
            (
                fx_hash(s.subrange(p, p + 2)),
                if p == 0 || s[p - 1] == 0x20 || s[p - 1] == 0x09 || s[p - 1] == 0x0a || s[p - 1]
                    == 0x0c || s[p - 1] == 0x0d || p + 2 == s.len() || s[p + 2] == 0x20 || s[p + 2]
                    == 0x09 || s[p + 2] == 0x0a || s[p + 2] == 0x0c || s[p + 2] == 0x0d {
                    2int
                } else {
                    1int
                },
            ),
        ),
{
}

/// The occurrences of a text are those of its bigram positions: nothing
/// follows the last position.
pub proof fn lemma_occurrences_whole_text(s: Seq<u8>)
    requires
        s.len() > 0,
    ensures
        occurrences(s, s.len() as int) == occurrences(s, s.len() - 1),
        occurrences(s, 0) == Seq::<(u64, int)>::empty(),
{
}

/// The total weight of the occurrences of `h`.
pub open spec fn weight_total(occ: Seq<(u64, int)>, h: u64) -> int
    decreases occ.len(),
{
    if occ.len() == 0 {
        0
    } else {
        weight_total(occ.drop_last(), h) + if occ.last().0 == h {
            occ.last().1
        } else {
            0
        }
    }
}

/// Summing weights per n-gram: the result holds each n-gram that occurs,
/// once, with the total weight of its occurrences, and nothing else.
#[verifier::rlimit(60)]
#[verifier::spinoff_prover]
pub proof fn lemma_accumulate_sums(occ: Seq<(u64, int)>)
    ensures
        distinct_keys(accumulate(occ)),
        forall|i: int|
            0 <= i < accumulate(occ).len() ==> #[trigger] accumulate(occ)[i].1 == weight_total(
                occ,
                accumulate(occ)[i].0,
            ),
        forall|i: int|
            0 <= i < accumulate(occ).len() ==> exists|k: int|
                0 <= k < occ.len() && occ[k].0 == #[trigger] accumulate(occ)[i].0,
        forall|k: int|
            0 <= k < occ.len() ==> exists|i: int|
                0 <= i < accumulate(occ).len() && accumulate(occ)[i].0 == (#[trigger] occ[k]).0,
    decreases occ.len(),
{
    if occ.len() > 0 {
        let init = occ.drop_last();
        let o = occ.last();
        let acc = accumulate(init);
        lemma_accumulate_sums(init);
        let r = accumulate(occ);
        if exists|j: int| 0 <= j < acc.len() && acc[j].0 == o.0 {
            let j = choose|j: int| 0 <= j < acc.len() && acc[j].0 == o.0;
            assert(r == acc.update(j, (o.0, acc[j].1 + o.1)));
            assert forall|i: int| 0 <= i < r.len() implies #[trigger] r[i].1 == weight_total(occ, r[i].0) by {
                if i != j {
                    assert(acc[i].0 != o.0);
                }
            }
            assert forall|i: int| 0 <= i < r.len() implies exists|k: int|
                0 <= k < occ.len() && occ[k].0 == #[trigger] r[i].0 by {
                if i == j {
                    assert(occ[occ.len() - 1].0 == r[i].0);
                } else {
                    assert(r[i].0 == acc[i].0);
                    let k = choose|k: int| 0 <= k < init.len() && init[k].0 == acc[i].0;
                    assert(occ[k].0 == r[i].0);
                }
            }
            assert forall|k: int| 0 <= k < occ.len() implies exists|i: int|
                0 <= i < r.len() && r[i].0 == (#[trigger] occ[k]).0 by {
                if k == occ.len() - 1 {
                    assert(r[j].0 == occ[k].0);
                } else {
                    assert(init[k] == occ[k]);
                    let i = choose|i: int| 0 <= i < acc.len() && acc[i].0 == init[k].0;
                    assert(r[i].0 == occ[k].0);
                }
            }
        } else {
            assert(r == acc.push(o));
            assert forall|i: int| 0 <= i < r.len() implies #[trigger] r[i].1 == weight_total(occ, r[i].0) by {
                if i < acc.len() {
                    assert(acc[i].0 != o.0);
                } else {
                    assert(!(exists|k: int| 0 <= k < init.len() && init[k].0 == o.0)) by {
                        if exists|k: int| 0 <= k < init.len() && init[k].0 == o.0 {
                            let k = choose|k: int| 0 <= k < init.len() && init[k].0 == o.0;
                            assert(init[k].0 == o.0);
                        }
                    }
                    lemma_weight_total_absent(init, o.0);
                }
            }
            assert forall|i: int| 0 <= i < r.len() implies exists|k: int|
                0 <= k < occ.len() && occ[k].0 == #[trigger] r[i].0 by {
                if i == acc.len() as int {
                    assert(occ[occ.len() - 1].0 == r[i].0);
                } else {
                    assert(r[i].0 == acc[i].0);
                    let k = choose|k: int| 0 <= k < init.len() && init[k].0 == acc[i].0;
                    assert(occ[k].0 == r[i].0);
                }
            }
            assert forall|k: int| 0 <= k < occ.len() implies exists|i: int|
                0 <= i < r.len() && r[i].0 == (#[trigger] occ[k]).0 by {
                if k == occ.len() - 1 {
                    assert(r[acc.len() as int].0 == occ[k].0);
                } else {
                    assert(init[k] == occ[k]);
                    let i = choose|i: int| 0 <= i < acc.len() && acc[i].0 == init[k].0;
                    assert(r[i].0 == occ[k].0);
                }
            }
            assert forall|a: int, b: int| 0 <= a < b < r.len() implies r[a].0 != r[b].0 by {
                if b == acc.len() {
                    if acc[a].0 == o.0 {
                        assert(false);
                    }
                }
            }
        }
    }
}

/// A key that does not occur has total weight zero.
proof fn lemma_weight_total_absent(occ: Seq<(u64, int)>, h: u64)
    requires
        forall|k: int| 0 <= k < occ.len() ==> (#[trigger] occ[k]).0 != h,
    ensures
        weight_total(occ, h) == 0,
    decreases occ.len(),
{
    if occ.len() > 0 {
        lemma_weight_total_absent(occ.drop_last(), h);
    }
}

/// Every occurrence among the first `n` positions is the hash of a bigram
/// of the text at a position before `n` with no ASCII whitespace byte.
proof fn lemma_occurrences_from_token_bigrams(s: Seq<u8>, n: int)
    requires
        0 <= n,
    ensures
        forall|k: int|
            0 <= k < occurrences(s, n).len() ==> exists|p: int|
                0 <= p < n && p + 1 < s.len() && (#[trigger] occurrences(s, n)[k]).0 == fx_hash(
                    #[trigger] s.subrange(p, p + 2),
                ) && !(s[p] == 0x20 || s[p] == 0x09 || s[p] == 0x0a || s[p] == 0x0c || s[p]
                    == 0x0d) && !(s[p + 1] == 0x20 || s[p + 1] == 0x09 || s[p + 1] == 0x0a || s[p
                    + 1] == 0x0c || s[p + 1] == 0x0d),
    decreases n,
{
    if n > 0 {
        lemma_occurrences_from_token_bigrams(s, n - 1);
        let prev = occurrences(s, n - 1);
        assert forall|k: int| 0 <= k < occurrences(s, n).len() implies exists|p: int|
            0 <= p < n && p + 1 < s.len() && (#[trigger] occurrences(s, n)[k]).0 == fx_hash(
                #[trigger] s.subrange(p, p + 2),
            ) && !(s[p] == 0x20 || s[p] == 0x09 || s[p] == 0x0a || s[p] == 0x0c || s[p] == 0x0d)
                && !(s[p + 1] == 0x20 || s[p + 1] == 0x09 || s[p + 1] == 0x0a || s[p + 1] == 0x0c
                || s[p + 1] == 0x0d) by {
            if k < prev.len() {
                assert(occurrences(s, n)[k] == prev[k]);
                let p = choose|p: int|
                    0 <= p < n - 1 && p + 1 < s.len() && (#[trigger] prev[k]).0 == fx_hash(
                        #[trigger] s.subrange(p, p + 2),
                    ) && !(s[p] == 0x20 || s[p] == 0x09 || s[p] == 0x0a || s[p] == 0x0c || s[p]
                        == 0x0d) && !(s[p + 1] == 0x20 || s[p + 1] == 0x09 || s[p + 1] == 0x0a
                        || s[p + 1] == 0x0c || s[p + 1] == 0x0d);
                assert(p < n);
            } else {
                assert(occurrences(s, n)[k].0 == bigram_at(s, n - 1));
            }
        }
    }
}

/// No index n-gram spans ASCII whitespace: each n-gram of a text is the
/// hash of one of its bigrams whose two bytes are neither space, tab, line
/// feed, form feed nor carriage return.
pub proof fn lemma_index_ngrams_avoid_whitespace(s: Seq<u8>)
    ensures
        forall|i: int|
            0 <= i < index_ngrams(s).len() ==> exists|p: int|
                0 <= p && p + 1 < s.len() && (#[trigger] index_ngrams(s)[i]).0 == fx_hash(
                    #[trigger] s.subrange(p, p + 2),
                ) && !(s[p] == 0x20 || s[p] == 0x09 || s[p] == 0x0a || s[p] == 0x0c || s[p]
                    == 0x0d) && !(s[p + 1] == 0x20 || s[p + 1] == 0x09 || s[p + 1] == 0x0a || s[p
                    + 1] == 0x0c || s[p + 1] == 0x0d),
{
    let occ = occurrences(s, s.len() as int);
    lemma_occurrences_from_token_bigrams(s, s.len() as int);
    lemma_accumulate_sums(occ);
    assert forall|i: int| 0 <= i < index_ngrams(s).len() implies exists|p: int|
        0 <= p && p + 1 < s.len() && (#[trigger] index_ngrams(s)[i]).0 == fx_hash(
            #[trigger] s.subrange(p, p + 2),
        ) && !(s[p] == 0x20 || s[p] == 0x09 || s[p] == 0x0a || s[p] == 0x0c || s[p] == 0x0d)
            && !(s[p + 1] == 0x20 || s[p + 1] == 0x09 || s[p + 1] == 0x0a || s[p + 1] == 0x0c
            || s[p + 1] == 0x0d) by {
        let k = choose|k: int| 0 <= k < occ.len() && occ[k].0 == accumulate(occ)[i].0;
        assert(occ[k].0 == index_ngrams(s)[i].0);
    }
}

/// The query bigrams among the first `n` positions of `t`: at most 32, none
/// twice, each the hash of a bigram of `t` at one of those positions, and,
/// while fewer than 32 were taken, every bigram at those positions is among
/// them.
pub proof fn lemma_query_bigrams_selection(t: Seq<u8>, n: int)
    requires
        0 <= n,
    ensures
        query_bigrams(t, n).len() <= 32,
        query_bigrams(t, n).no_duplicates(),
        forall|k: int|
            0 <= k < query_bigrams(t, n).len() ==> exists|p: int|
                0 <= p < n && p + 1 < t.len() && #[trigger] query_bigrams(t, n)[k] == fx_hash(
                    #[trigger] t.subrange(p, p + 2),
                ),
        query_bigrams(t, n).len() < 32 ==> forall|p: int|
            0 <= p < n && p + 1 < t.len() ==> query_bigrams(t, n).contains(
                fx_hash(#[trigger] t.subrange(p, p + 2)),
            ),
    decreases n,
{
    if n > 0 {
        lemma_query_bigrams_selection(t, n - 1);
        let prev = query_bigrams(t, n - 1);
        let cur = query_bigrams(t, n);
        if cur != prev {
            assert(cur == prev.push(bigram_at(t, n - 1)));
            assert forall|k: int| 0 <= k < cur.len() implies exists|p: int|
                0 <= p < n && p + 1 < t.len() && #[trigger] cur[k] == fx_hash(
                    #[trigger] t.subrange(p, p + 2),
                ) by {
                if k < prev.len() {
                    assert(cur[k] == prev[k]);
                    let p = choose|p: int|
                        0 <= p < n - 1 && p + 1 < t.len() && #[trigger] prev[k] == fx_hash(
                            #[trigger] t.subrange(p, p + 2),
                        );
                    assert(cur[k] == fx_hash(t.subrange(p, p + 2)));
                } else {
                    assert(cur[k] == fx_hash(t.subrange(n - 1, n + 1)));
                }
            }
            assert forall|a: int, b: int| 0 <= a < cur.len() && 0 <= b < cur.len() && a != b implies cur[a] != cur[b] by {
                if a == prev.len() {
                    assert(!prev.contains(cur[a]));
                    assert(prev[b] == cur[b]);
                } else if b == prev.len() {
                    assert(!prev.contains(cur[b]));
                    assert(prev[a] == cur[a]);
                }
            }
            if cur.len() < 32 {
                assert forall|p: int| 0 <= p < n && p + 1 < t.len() implies cur.contains(
                    fx_hash(#[trigger] t.subrange(p, p + 2)),
                ) by {
                    if p == n - 1 {
                        assert(cur[prev.len() as int] == fx_hash(t.subrange(p, p + 2)));
                    } else {
                        let h = fx_hash(t.subrange(p, p + 2));
                        let j = choose|j: int| 0 <= j < prev.len() && prev[j] == h;
                        assert(cur[j] == h);
                    }
                }
            }
        } else {
            if cur.len() < 32 {
                assert forall|p: int| 0 <= p < n && p + 1 < t.len() implies cur.contains(
                    fx_hash(#[trigger] t.subrange(p, p + 2)),
                ) by {
                    if p == n - 1 {
                        assert(prev.contains(bigram_at(t, n - 1)));
                    }
                }
            }
            assert forall|k: int| 0 <= k < cur.len() implies exists|p: int|
                0 <= p < n && p + 1 < t.len() && #[trigger] cur[k] == fx_hash(
                    #[trigger] t.subrange(p, p + 2),
                ) by {
                let p = choose|p: int|
                    0 <= p < n - 1 && p + 1 < t.len() && #[trigger] prev[k] == fx_hash(
                        #[trigger] t.subrange(p, p + 2),
                    );
                assert(cur[k] == fx_hash(t.subrange(p, p + 2)));
            }
        }
    }
}

/// Extract the weighted bigrams of `text` for indexing: every byte bigram
/// within a whitespace-delimited token, border bigrams weighing
/// `BORDER_WEIGHT` and interior ones `INTERIOR_WEIGHT`, weights summed per
/// n-gram, n-grams in order of first occurrence.
pub fn extract_ngrams(text: &str) -> (r: Vec<(Ngram, u64)>)
    requires
        text.spec_bytes().len() <= isize::MAX,
    ensures
        weighted_view(r@) == index_ngrams(text.spec_bytes()),
        distinct_keys(weighted_view(r@)),
{
    extract_ngrams_bytes(text.as_bytes())
}

/// [`extract_ngrams`] over raw bytes, for a byte range of a larger text.
pub fn extract_ngrams_bytes(bytes: &[u8]) -> (r: Vec<(Ngram, u64)>)
    requires
        bytes@.len() <= isize::MAX,
    ensures
        weighted_view(r@) == index_ngrams(bytes@),
        distinct_keys(weighted_view(r@)),
{
    let n = bytes.len();
    let ghost s = bytes@;
    let mut result: Vec<(Ngram, u64)> = Vec::new();
    if n < 2 {
        proof {
            assert(occurrences(s, 0) =~= Seq::<(u64, int)>::empty());
            if n == 1 {
                assert(occurrences(s, 1) == occurrences(s, 0));
            }
        }
        return result;
    }
    let mut index: FxHashMap<u64, usize> = FxHashMap::default();
    let mut p: usize = 0;
    while p + 1 < n
        invariant
            s == bytes@,
            n == s.len(),
            n <= isize::MAX,
            p + 1 <= n,
            weighted_view(result@) == accumulate(occurrences(s, p as int)),
            distinct_keys(weighted_view(result@)),
            forall|j: int| 0 <= j < result@.len() ==> #[trigger] result@[j].1 <= 2 * p,
            forall|h: u64|
                #![trigger index@.contains_key(h)]
                index@.contains_key(h) ==> index@[h] < result@.len() && result@[index@[h] as int].0@
                    == h,
            forall|j: int|
                0 <= j < result@.len() ==> index@.contains_key(#[trigger] result@[j].0@),
        decreases n - p,
    {
        let ghost acc = weighted_view(result@);
        if (bytes[p] != 0x20 && bytes[p] != 0x09 && bytes[p] != 0x0a && bytes[p] != 0x0c
            && bytes[p] != 0x0d) && (bytes[p + 1] != 0x20 && bytes[p + 1] != 0x09 && bytes[p + 1]
            != 0x0a && bytes[p + 1] != 0x0c && bytes[p + 1] != 0x0d) {
            let border = p == 0 || !(bytes[p - 1] != 0x20 && bytes[p - 1] != 0x09 && bytes[p - 1]
                != 0x0a && bytes[p - 1] != 0x0c && bytes[p - 1] != 0x0d) || p + 2 == n || !(bytes[p
                + 2] != 0x20 && bytes[p + 2] != 0x09 && bytes[p + 2] != 0x0a && bytes[p + 2] != 0x0c
                && bytes[p + 2] != 0x0d);
            let w: u64 = if border {
                BORDER_WEIGHT
            } else {
                INTERIOR_WEIGHT
            };
            let ng = Ngram::from_bytes(vstd::slice::slice_subrange(bytes, p, p + 2));
            let h = ng.as_u64();
            let ghost o = (bigram_at(s, p as int), bigram_weight(s, p as int));
            assert(o == (h, w as int));
            assert(occurrences(s, p + 1) == occurrences(s, p as int).push(o));
            assert(occurrences(s, p + 1).drop_last() =~= occurrences(s, p as int));
            assert(occurrences(s, p + 1).last() == o);
            match fx_get(&index, &h) {
                Some(j_ref) => {
                    let j = *j_ref;
                    let old_w = result[j].1;
                    result.set(j, (ng, old_w + w));
                    proof {
                        assert(acc[j as int].0 == h);
                        assert(exists|j: int| 0 <= j < acc.len() && acc[j].0 == o.0);
                        let jc = choose|j: int| 0 <= j < acc.len() && acc[j].0 == o.0;
                        assert(jc == j);
                        assert(weighted_view(result@) =~= acc.update(j as int, (o.0, acc[j as int].1 + o.1)));
                    }
                },
                None => {
                    proof {
                        if exists|j: int| 0 <= j < acc.len() && acc[j].0 == o.0 {
                            let jc = choose|j: int| 0 <= j < acc.len() && acc[j].0 == o.0;
                            assert(index@.contains_key(result@[jc].0@));
                        }
                    }
                    let len = result.len();
                    fx_insert(&mut index, h, len);
                    result.push((ng, w));
                    assert(weighted_view(result@) =~= acc.push(o));
                },
            }
        } else {
            assert(occurrences(s, p + 1) == occurrences(s, p as int));
        }
        p = p + 1;
    }
    proof {
        assert(occurrences(s, n as int) == occurrences(s, (n - 1) as int));
    }
    result
}

/// Extract the query n-grams of `query`: the distinct bigrams of the
/// trimmed query in order, at most `MAX_QUERY_NGRAMS`, each weighted
/// `INTERIOR_WEIGHT`.
pub fn extract_query_ngrams(query: &str) -> (r: Vec<(Ngram, u64)>)
    ensures
        r@.map_values(|x: (Ngram, u64)| x.0@) == query_ngrams(query.spec_bytes()),
        forall|k: int| 0 <= k < r@.len() ==> #[trigger] r@[k].1 == INTERIOR_WEIGHT,
{
    let bytes = query.as_bytes();
    let (a, b) = trim_bounds(bytes, 0, bytes.len());
    let ghost t = trim(bytes@);
    proof {
        assert(bytes@.subrange(0, bytes@.len() as int) =~= bytes@);
    }
    let mut selected: Vec<(Ngram, u64)> = Vec::new();
    let mut seen: FxHashSet<u64> = FxHashSet::default();
    if b - a < 2 {
        proof {
            assert(query_bigrams(t, 0) =~= Seq::<u64>::empty());
            if t.len() == 1 {
                assert(query_bigrams(t, 1) == query_bigrams(t, 0));
            }
        }
        assert(selected@.map_values(|x: (Ngram, u64)| x.0@) =~= Seq::<u64>::empty());
        return selected;
    }
    let total = b - a - 1;
    let mut i: usize = 0;
    while i < total
        invariant
            a + total + 1 == b <= bytes@.len(),
            t == bytes@.subrange(a as int, b as int),
            bytes@ == query.spec_bytes(),
            t == trim(query.spec_bytes()),
            i <= total,
            selected@.map_values(|x: (Ngram, u64)| x.0@) == query_bigrams(t, i as int),
            forall|k: int| 0 <= k < selected@.len() ==> #[trigger] selected@[k].1 == INTERIOR_WEIGHT,
            forall|h: u64| #[trigger] seen@.contains(h) <==> selected@.map_values(|x: (Ngram, u64)| x.0@).contains(h),
        decreases total - i,
    {
        let ghost prev = query_bigrams(t, i as int);
        if selected.len() >= MAX_QUERY_NGRAMS {
            proof {
                lemma_query_bigrams_capped(t, i as int, total as int + 1);
            }
            assert(t.len() == total + 1);
            assert(bytes@ == query.spec_bytes());
            return selected;
        }
        let ng = Ngram::from_bytes(vstd::slice::slice_subrange(bytes, a + i, a + i + 2));
        assert(bytes@.subrange(a + i, a + i + 2) =~= t.subrange(i as int, i + 2));
        let ghost v = selected@.map_values(|x: (Ngram, u64)| x.0@);
        let fresh = fx_set_insert(&mut seen, ng.as_u64());
        if fresh {
            selected.push((ng, INTERIOR_WEIGHT));
            assert(selected@.map_values(|x: (Ngram, u64)| x.0@) =~= prev.push(ng@));
        }
        proof {
            let w = selected@.map_values(|x: (Ngram, u64)| x.0@);
            assert forall|h: u64| #[trigger] seen@.contains(h) <==> w.contains(h) by {
                if fresh {
                    if w.contains(h) && h != ng@ {
                        let m = choose|m: int| 0 <= m < w.len() && w[m] == h;
                        assert(v[m] == h);
                    }
                    if v.contains(h) {
                        let m = choose|m: int| 0 <= m < v.len() && v[m] == h;
                        assert(w[m] == h);
                    }
                    if h == ng@ {
                        assert(w[w.len() - 1] == h);
                    }
                }
            }
        }
        i = i + 1;
    }
    proof {
        assert(query_bigrams(t, total as int + 1) == query_bigrams(t, total as int));
        assert(t.len() == total + 1);
    }
    selected
}

/// Once the cap is reached, no further bigram is selected.
proof fn lemma_query_bigrams_capped(t: Seq<u8>, i: int, n: int)
    requires
        0 <= i <= n,
        query_bigrams(t, i).len() >= MAX_QUERY_NGRAMS,
    ensures
        query_bigrams(t, n) == query_bigrams(t, i),
    decreases n - i,
{
    if i < n {
        lemma_query_bigrams_capped(t, i, n - 1);
    }
}

/// Every key of an accumulation is the key of an occurrence, and back.
proof fn lemma_accumulate_keys(occ: Seq<(u64, int)>, h: u64)
    ensures
        (exists|j: int| 0 <= j < accumulate(occ).len() && accumulate(occ)[j].0 == h) <==> (exists|
            k: int,
        | 0 <= k < occ.len() && occ[k].0 == h),
    decreases occ.len(),
{
    if occ.len() > 0 {
        let init = occ.drop_last();
        let o = occ.last();
        lemma_accumulate_keys(init, h);
        let acc = accumulate(init);
        let res = accumulate(occ);
        if exists|j: int| 0 <= j < acc.len() && acc[j].0 == o.0 {
            let jc = choose|j: int| 0 <= j < acc.len() && acc[j].0 == o.0;
            assert(res == acc.update(jc, (o.0, acc[jc].1 + o.1)));
            if exists|j: int| 0 <= j < res.len() && res[j].0 == h {
                let j = choose|j: int| 0 <= j < res.len() && res[j].0 == h;
                if j == jc {
                    assert(acc[jc].0 == h);
                } else {
                    assert(acc[j].0 == h);
                }
                let k = choose|k: int| 0 <= k < init.len() && init[k].0 == h;
                assert(occ[k] == init[k]);
            }
            if exists|k: int| 0 <= k < occ.len() && occ[k].0 == h {
                let k = choose|k: int| 0 <= k < occ.len() && occ[k].0 == h;
                if k < init.len() {
                    assert(init[k] == occ[k]);
                    let j = choose|j: int| 0 <= j < acc.len() && acc[j].0 == h;
                    assert(res[j].0 == h);
                } else {
                    assert(res[jc].0 == h);
                }
            }
        } else {
            assert(res == acc.push(o));
            if exists|j: int| 0 <= j < res.len() && res[j].0 == h {
                let j = choose|j: int| 0 <= j < res.len() && res[j].0 == h;
                if j < acc.len() {
                    assert(acc[j].0 == h);
                    let k = choose|k: int| 0 <= k < init.len() && init[k].0 == h;
                    assert(occ[k] == init[k]);
                } else {
                    assert(occ[occ.len() - 1].0 == h);
                }
            }
            if exists|k: int| 0 <= k < occ.len() && occ[k].0 == h {
                let k = choose|k: int| 0 <= k < occ.len() && occ[k].0 == h;
                if k < init.len() {
                    assert(init[k] == occ[k]);
                    let j = choose|j: int| 0 <= j < acc.len() && acc[j].0 == h;
                    assert(res[j].0 == h);
                } else {
                    assert(res[acc.len() as int].0 == h);
                }
            }
        }
    }
}

/// In a text of token bytes only, every bigram position gives an occurrence.
proof fn lemma_occurrences_cover(s: Seq<u8>, n: int, p: int)
    requires
        forall|k: int| 0 <= k < s.len() ==> is_token_byte(#[trigger] s[k]),
        0 <= p < n <= s.len(),
        p + 1 < s.len(),
    ensures
        exists|k: int|
            0 <= k < occurrences(s, n).len() && #[trigger] occurrences(s, n)[k].0 == bigram_at(
                s,
                p,
            ),
    decreases n,
{
    assert(is_token_byte(s[p]) && is_token_byte(s[p + 1]));
    if p < n - 1 {
        lemma_occurrences_cover(s, n - 1, p);
        let k = choose|k: int|
            0 <= k < occurrences(s, n - 1).len() && #[trigger] occurrences(s, n - 1)[k].0
                == bigram_at(s, p);
        assert(is_token_byte(s[n - 1]));
        if n < s.len() {
            assert(is_token_byte(s[n as int]));
        }
        assert(occurrences(s, n)[k] == occurrences(s, n - 1)[k]);
    } else {
        assert(n == p + 1);
        let occ = occurrences(s, n);
        assert(occ[occ.len() - 1].0 == bigram_at(s, p));
    }
}

/// Every selected query bigram is the bigram at some position of `t`.
proof fn lemma_query_bigrams_positions(t: Seq<u8>, n: int, h: u64)
    requires
        0 <= n,
        query_bigrams(t, n).contains(h),
    ensures
        exists|p: int| 0 <= p < n && p + 1 < t.len() && bigram_at(t, p) == h,
    decreases n,
{
    if n > 0 {
        let prev = query_bigrams(t, n - 1);
        if prev.contains(h) {
            lemma_query_bigrams_positions(t, n - 1, h);
            let p = choose|p: int| 0 <= p < n - 1 && p + 1 < t.len() && bigram_at(t, p) == h;
            assert(bigram_at(t, p) == h);
        } else {
            assert(bigram_at(t, n - 1) == h);
        }
    }
}

/// Trimming keeps a contiguous stretch of the text.
proof fn lemma_trim_start_skip(s: Seq<u8>) -> (a: int)
    ensures
        0 <= a <= s.len(),
        crate::text::trim_start(s) == s.skip(a),
    decreases s.len(),
{
    let k = crate::text::ws_prefix_len(s);
    if k > 0 {
        let a2 = lemma_trim_start_skip(s.skip(k));
        assert(s.skip(k).skip(a2) =~= s.skip(k + a2));
        k + a2
    } else {
        assert(s.skip(0) =~= s);
        0
    }
}

proof fn lemma_trim_end_take(s: Seq<u8>) -> (b: int)
    ensures
        0 <= b <= s.len(),
        crate::text::trim_end(s) == s.take(b),
    decreases s.len(),
{
    let k = crate::text::ws_suffix_len(s);
    if k > 0 {
        let b2 = lemma_trim_end_take(s.take(s.len() - k));
        assert(s.take(s.len() - k).take(b2) =~= s.take(b2));
        b2
    } else {
        assert(s.take(s.len() as int) =~= s);
        s.len() as int
    }
}

proof fn lemma_bigram_shift(s: Seq<u8>, a: int, b: int, p: int)
    requires
        0 <= a <= s.len(),
        0 <= b <= s.len() - a,
        0 <= p,
        p + 1 < b,
    ensures
        bigram_at(s.skip(a).take(b), p) == bigram_at(s, a + p),
{
    assert(s.skip(a).take(b).subrange(p, p + 2) =~= s.subrange(a + p, a + p + 2));
}

/// For a text without ASCII whitespace, every query n-gram is one of its
/// index n-grams.
pub proof fn lemma_query_ngrams_within_index_ngrams(s: Seq<u8>, h: u64)
    requires
        forall|k: int| 0 <= k < s.len() ==> is_token_byte(#[trigger] s[k]),
        query_ngrams(s).contains(h),
    ensures
        exists|j: int| 0 <= j < index_ngrams(s).len() && index_ngrams(s)[j].0 == h,
{
    let a = lemma_trim_start_skip(s);
    let ts = s.skip(a);
    let b = lemma_trim_end_take(ts);
    let t = trim(s);
    assert(t == ts.take(b));
    lemma_query_bigrams_positions(t, t.len() as int, h);
    let p = choose|p: int| 0 <= p < t.len() && p + 1 < t.len() && bigram_at(t, p) == h;
    lemma_bigram_shift(s, a, b, p);
    assert(bigram_at(s, a + p) == h);
    lemma_occurrences_cover(s, s.len() as int, a + p);
    let occ = occurrences(s, s.len() as int);
    let k = choose|k: int| 0 <= k < occ.len() && #[trigger] occ[k].0 == bigram_at(s, a + p);
    assert(occ[k].0 == h);
    lemma_accumulate_keys(occ, h);
    assert(exists|j: int| 0 <= j < accumulate(occ).len() && accumulate(occ)[j].0 == h);
    let j = choose|j: int| 0 <= j < accumulate(occ).len() && accumulate(occ)[j].0 == h;
    assert(index_ngrams(s) == accumulate(occ));
    assert(index_ngrams(s)[j].0 == h);
}

} // verus!
