//! Embeddings as stored bytes, and the merging of what the per-source
//! nearest-neighbour structures return into one list of results.

use vstd::prelude::*;
use std::collections::HashSet;
use crate::Item;

verus! {

/// The four bytes of `x`, lowest first.
pub open spec fn le_bytes(x: u32) -> Seq<u8> {
    seq![
        (x & 0xff) as u8,
        ((x >> 8) & 0xff) as u8,
        ((x >> 16) & 0xff) as u8,
        ((x >> 24) & 0xff) as u8,
    ]
}

/// The number whose bytes, lowest first, are `b0` to `b3`.
pub open spec fn from_le_bytes(b0: u8, b1: u8, b2: u8, b3: u8) -> u32 {
    (b0 as u32) | ((b1 as u32) << 8) | ((b2 as u32) << 16) | ((b3 as u32) << 24)
}

/// An embedding as it is stored: the bytes of its numbers, each lowest byte
/// first, one number after the other.
pub open spec fn serialized(embedding: Seq<u32>) -> Seq<u8> {
    Seq::new(4 * embedding.len(), |k: int| le_bytes(embedding[k / 4])[k % 4])
}

/// The embedding that is stored as `bytes`: one number for every four bytes.
pub open spec fn deserialized(bytes: Seq<u8>) -> Seq<u32> {
    Seq::new(
        bytes.len() / 4,
        |i: int| from_le_bytes(bytes[4 * i], bytes[4 * i + 1], bytes[4 * i + 2], bytes[4 * i + 3]),
    )
}

pub proof fn lemma_le_bytes_round_trip(x: u32)
    ensures
        le_bytes(x).len() == 4,
        from_le_bytes(le_bytes(x)[0], le_bytes(x)[1], le_bytes(x)[2], le_bytes(x)[3]) == x,
{
    assert(x & 0xff < 256 && (x >> 8) & 0xff < 256 && (x >> 16) & 0xff < 256 && (x >> 24) & 0xff
        < 256) by (bit_vector);
    assert(x == ((x & 0xff) | (((x >> 8) & 0xff) << 8) | (((x >> 16) & 0xff) << 16) | (((x >> 24)
        & 0xff) << 24))) by (bit_vector);
}

pub proof fn lemma_from_le_bytes_round_trip(b0: u8, b1: u8, b2: u8, b3: u8)
    ensures
        le_bytes(from_le_bytes(b0, b1, b2, b3)) == seq![b0, b1, b2, b3],
{
    let x = from_le_bytes(b0, b1, b2, b3);
    let w0 = b0 as u32;
    let w1 = b1 as u32;
    let w2 = b2 as u32;
    let w3 = b3 as u32;
    assert(x == w0 | (w1 << 8) | (w2 << 16) | (w3 << 24));
    assert(w0 < 256 && w1 < 256 && w2 < 256 && w3 < 256 && x == w0 | (w1 << 8) | (w2 << 16) | (w3
        << 24) ==> w0 == x & 0xff && w1 == (x >> 8) & 0xff && w2 == (x >> 16) & 0xff && w3 == (x
        >> 24) & 0xff) by (bit_vector);
    assert(le_bytes(x) =~= seq![b0, b1, b2, b3]);
}

/// Reading back what was stored gives the embedding that was stored.
pub proof fn lemma_deserialize_serialize(embedding: Seq<u32>)
    ensures
        deserialized(serialized(embedding)) == embedding,
{
    let bytes = serialized(embedding);
    assert(bytes.len() / 4 == embedding.len());
    assert forall|i: int| 0 <= i < embedding.len() implies deserialized(bytes)[i]
        == embedding[i] by {
        lemma_le_bytes_round_trip(embedding[i]);
        assert((4 * i) / 4 == i && (4 * i) % 4 == 0);
        assert((4 * i + 1) / 4 == i && (4 * i + 1) % 4 == 1);
        assert((4 * i + 2) / 4 == i && (4 * i + 2) % 4 == 2);
        assert((4 * i + 3) / 4 == i && (4 * i + 3) % 4 == 3);
    }
    assert(deserialized(bytes) =~= embedding);
}

/// Storing what was read from bytes gives those bytes, where the bytes are a
/// whole number of numbers.
pub proof fn lemma_serialize_deserialize(bytes: Seq<u8>)
    requires
        bytes.len() % 4 == 0,
    ensures
        serialized(deserialized(bytes)) == bytes,
{
    let embedding = deserialized(bytes);
    assert(4 * embedding.len() == bytes.len());
    assert forall|k: int| 0 <= k < bytes.len() implies serialized(embedding)[k] == bytes[k] by {
        let i = k / 4;
        lemma_from_le_bytes_round_trip(
            bytes[4 * i],
            bytes[4 * i + 1],
            bytes[4 * i + 2],
            bytes[4 * i + 3],
        );
        assert(k == 4 * i + k % 4);
    }
    assert(serialized(embedding) =~= bytes);
}

/// Reads an embedding from its stored bytes.
pub fn deserialize_embedding(value: &[u8]) -> (r: Vec<u32>)
    requires
        value@.len() % 4 == 0,
    ensures
        r@ == deserialized(value@),
{
    let n = value.len() / 4;
    let mut out: Vec<u32> = Vec::with_capacity(n);
    let mut i: usize = 0;
    while i < n
        invariant
            n == value@.len() / 4,
            value@.len() % 4 == 0,
            4 * n == value@.len(),
            value@.len() <= usize::MAX,
            i <= n,
            out@.len() == i,
            forall|j: int| 0 <= j < i ==> out@[j] == deserialized(value@)[j],
        decreases n - i,
    {
        let b0 = value[4 * i];
        let b1 = value[4 * i + 1];
        let b2 = value[4 * i + 2];
        let b3 = value[4 * i + 3];
        let x: u32 = (b0 as u32) | ((b1 as u32) << 8) | ((b2 as u32) << 16) | ((b3 as u32) << 24);
        out.push(x);
        i = i + 1;
    }
    proof {
        assert(out@ =~= deserialized(value@));
    }
    out
}

/// Writes an embedding as the bytes to store.
pub fn serialize_embedding(embedding: &[u32]) -> (r: Vec<u8>)
    ensures
        r@ == serialized(embedding@),
{
    let mut bytes_vec: Vec<u8> = Vec::new();
    let mut i: usize = 0;
    while i < embedding.len()
        invariant
            i <= embedding.len(),
            bytes_vec@.len() == 4 * i,
            forall|k: int| 0 <= k < 4 * i ==> bytes_vec@[k] == serialized(embedding@)[k],
        decreases embedding.len() - i,
    {
        let x = embedding[i];
        assert(x & 0xff < 256 && (x >> 8) & 0xff < 256 && (x >> 16) & 0xff < 256 && (x >> 24)
            & 0xff < 256) by (bit_vector);
        bytes_vec.push((x & 0xff) as u8);
        bytes_vec.push(((x >> 8) & 0xff) as u8);
        bytes_vec.push(((x >> 16) & 0xff) as u8);
        bytes_vec.push(((x >> 24) & 0xff) as u8);
        proof {
            let ii = i as int;
            assert((4 * ii) / 4 == ii && (4 * ii) % 4 == 0);
            assert((4 * ii + 1) / 4 == ii && (4 * ii + 1) % 4 == 1);
            assert((4 * ii + 2) / 4 == ii && (4 * ii + 2) % 4 == 2);
            assert((4 * ii + 3) / 4 == ii && (4 * ii + 3) % 4 == 3);
        }
        i = i + 1;
    }
    proof {
        assert(bytes_vec@ =~= serialized(embedding@));
    }
    bytes_vec
}

/// One search result: an item and its distance from the query. The distance
/// is a 32-bit IEEE 754 number, held as its bit pattern.
#[derive(Debug, Copy, Clone, PartialEq, Eq, Structural)]
pub struct SearchItem {
    pub id: i64,
    pub score: u32,
}

/// The place of a distance in the order of distances: a smaller number
/// has a smaller rank. Negative numbers rank below positive ones, and among
/// the negative ones the larger bit pattern is the smaller number.
pub open spec fn rank(score: u32) -> int {
    if score >= 0x8000_0000 {
        0xffff_ffff - score
    } else {
        0x8000_0000 + score
    }
}

/// Whether `items` are in order of distance, nearest first.
pub open spec fn ordered(items: Seq<SearchItem>) -> bool {
    forall|i: int, j: int|
        0 <= i < j < items.len() ==> rank(#[trigger] items[i].score) <= rank(
            #[trigger] items[j].score,
        )
}

/// How many items at the back of `items` are farther than `r`.
pub open spec fn farther_at_back(items: Seq<SearchItem>, r: int) -> nat
    decreases items.len(),
{
    if items.len() > 0 && rank(items.last().score) > r {
        1 + farther_at_back(items.drop_last(), r)
    } else {
        0
    }
}

/// `items` with `x` put in before the items at the back that are farther
/// than `x`.
pub open spec fn inserted(items: Seq<SearchItem>, x: SearchItem) -> Seq<SearchItem> {
    items.insert(items.len() - farther_at_back(items, rank(x.score)), x)
}

/// `items` in order of distance, nearest first; items at the same distance
/// keep their order.
pub open spec fn by_distance(items: Seq<SearchItem>) -> Seq<SearchItem>
    decreases items.len(),
{
    if items.len() == 0 {
        Seq::empty()
    } else {
        inserted(by_distance(items.drop_last()), items.last())
    }
}

/// The first `k` of `items`, or all of them where there are fewer.
pub open spec fn first_up_to<T>(items: Seq<T>, k: nat) -> Seq<T> {
    if items.len() <= k {
        items
    } else {
        items.take(k as int)
    }
}

/// The hits whose item is not hidden, in order.
pub open spec fn visible(hits: Seq<SearchItem>, hidden: Set<i64>) -> Seq<SearchItem>
    decreases hits.len(),
{
    if hits.len() == 0 {
        Seq::empty()
    } else if hidden.contains(hits.last().id) {
        visible(hits.drop_last(), hidden)
    } else {
        visible(hits.drop_last(), hidden).push(hits.last())
    }
}

/// What one source's nearest-neighbour structure returned for a query,
/// nearest first.
#[derive(Debug, Clone, PartialEq, Eq)]
pub struct SourceHits {
    pub source_id: i64,
    pub hits: Vec<SearchItem>,
}

/// What a source contributes to a search: nothing unless it was asked for,
/// and else the first `k` of its visible hits.
pub open spec fn contribution(
    found: SourceHits,
    sources: Seq<i64>,
    hidden: Set<i64>,
    k: nat,
) -> Seq<SearchItem> {
    if sources.contains(found.source_id) {
        first_up_to(visible(found.hits@, hidden), k)
    } else {
        Seq::empty()
    }
}

/// The contributions of all sources, one after the other.
pub open spec fn candidates(
    found: Seq<SourceHits>,
    sources: Seq<i64>,
    hidden: Set<i64>,
    k: nat,
) -> Seq<SearchItem>
    decreases found.len(),
{
    if found.len() == 0 {
        Seq::empty()
    } else {
        candidates(found.drop_last(), sources, hidden, k) + contribution(
            found.last(),
            sources,
            hidden,
            k,
        )
    }
}

/// The result of a search: the `k` nearest of all candidates, nearest first.
pub open spec fn merged(found: Seq<SourceHits>, sources: Seq<i64>, hidden: Set<i64>, k: nat) -> Seq<
    SearchItem,
> {
    first_up_to(by_distance(candidates(found, sources, hidden, k)), k)
}

pub proof fn lemma_farther_at_back(items: Seq<SearchItem>, r: int)
    ensures
        farther_at_back(items, r) <= items.len(),
        forall|i: int|
            items.len() - farther_at_back(items, r) <= i < items.len() ==> rank(
                (#[trigger] items[i]).score,
            ) > r,
        farther_at_back(items, r) < items.len() ==> rank(
            items[items.len() - farther_at_back(items, r) - 1].score,
        ) <= r,
    decreases items.len(),
{
    if items.len() > 0 && rank(items.last().score) > r {
        let front = items.drop_last();
        lemma_farther_at_back(front, r);
        assert forall|i: int|
            items.len() - farther_at_back(items, r) <= i < items.len() implies rank(
            (#[trigger] items[i]).score,
        ) > r by {
            if i < items.len() - 1 {
                assert(items[i] == front[i]);
            }
        }
        if farther_at_back(items, r) < items.len() {
            assert(items[items.len() - farther_at_back(items, r) - 1] == front[front.len()
                - farther_at_back(front, r) - 1]);
        }
    }
}

pub proof fn lemma_farther_at_back_is(items: Seq<SearchItem>, r: int, n: int)
    requires
        0 <= n <= items.len(),
        forall|i: int| n <= i < items.len() ==> rank((#[trigger] items[i]).score) > r,
        n > 0 ==> rank(items[n - 1].score) <= r,
    ensures
        farther_at_back(items, r) == items.len() - n,
    decreases items.len(),
{
    if n < items.len() {
        let front = items.drop_last();
        assert(rank(items.last().score) > r);
        assert forall|i: int| n <= i < front.len() implies rank((#[trigger] front[i]).score)
            > r by {
            assert(front[i] == items[i]);
        }
        if n > 0 {
            assert(front[n - 1] == items[n - 1]);
        }
        lemma_farther_at_back_is(front, r, n);
    }
}

/// Putting an item in keeps the order, adds that item and nothing else.
pub proof fn lemma_inserted(items: Seq<SearchItem>, x: SearchItem)
    ensures
        inserted(items, x).len() == items.len() + 1,
        forall|y: SearchItem| inserted(items, x).contains(y) <==> (y == x || items.contains(y)),
        ordered(items) ==> ordered(inserted(items, x)),
        inserted(items, x).to_multiset() == items.to_multiset().insert(x),
{
    let r = rank(x.score);
    let p = items.len() - farther_at_back(items, r);
    let out = inserted(items, x);
    lemma_farther_at_back(items, r);
    assert forall|y: SearchItem| out.contains(y) <==> (y == x || items.contains(y)) by {
        if out.contains(y) {
            let i = choose|i: int| 0 <= i < out.len() && out[i] == y;
            if i < p {
                assert(items[i] == y);
            } else if i > p {
                assert(items[i - 1] == y);
            }
        }
        if y == x {
            assert(out[p] == y);
        }
        if items.contains(y) {
            let i = choose|i: int| 0 <= i < items.len() && items[i] == y;
            if i < p {
                assert(out[i] == y);
            } else {
                assert(out[i + 1] == y);
            }
        }
    }
    if ordered(items) {
        assert forall|i: int, j: int| 0 <= i < j < out.len() implies rank(
            #[trigger] out[i].score,
        ) <= rank(#[trigger] out[j].score) by {
            if p > 0 {
                assert(rank(items[p - 1].score) <= r);
            }
            if i < p && j == p {
                assert(out[i] == items[i]);
                if i < p - 1 {
                    assert(rank(items[i].score) <= rank(items[p - 1].score));
                }
            } else if i == p {
                assert(out[j] == items[j - 1]);
            } else if i < p && j > p {
                assert(out[i] == items[i] && out[j] == items[j - 1]);
            } else if i < p && j < p {
                assert(out[i] == items[i] && out[j] == items[j]);
            } else {
                assert(out[i] == items[i - 1] && out[j] == items[j - 1]);
            }
        }
    }
    vstd::seq_lib::to_multiset_insert(items, p, x);
}

/// An item is in a sequence exactly if it is the last one or among those
/// before.
pub proof fn lemma_contains_last<T>(s: Seq<T>, y: T)
    requires
        s.len() > 0,
    ensures
        s.contains(y) <==> (s.drop_last().contains(y) || s.last() == y),
{
    let front = s.drop_last();
    if s.contains(y) {
        let i = choose|i: int| 0 <= i < s.len() && s[i] == y;
        if i < front.len() {
            assert(front[i] == y);
        }
    }
    if front.contains(y) {
        let i = choose|i: int| 0 <= i < front.len() && front[i] == y;
        assert(s[i] == y);
    }
    if s.last() == y {
        assert(s[s.len() - 1] == y);
    }
}

/// Ordering by distance rearranges the items and neither drops nor repeats
/// any, and what comes out is in order.
pub proof fn lemma_by_distance(items: Seq<SearchItem>)
    ensures
        by_distance(items).len() == items.len(),
        ordered(by_distance(items)),
        by_distance(items).to_multiset() == items.to_multiset(),
        forall|y: SearchItem| #[trigger] by_distance(items).contains(y) <==> items.contains(y),
    decreases items.len(),
{
    if items.len() == 0 {
        assert(by_distance(items) =~= items);
    } else {
        let front = items.drop_last();
        let last = items.last();
        lemma_by_distance(front);
        lemma_inserted(by_distance(front), last);
        assert(items =~= front.push(last));
        vstd::seq_lib::to_multiset_build(front, last);
        assert(by_distance(items).to_multiset() =~= items.to_multiset());
        assert forall|y: SearchItem| #[trigger]
            by_distance(items).contains(y) <==> items.contains(y) by {
            lemma_contains_last(items, y);
            assert(by_distance(front).contains(y) <==> front.contains(y));
        }
    }
}

/// Every visible hit is a hit, and its item is not hidden.
pub proof fn lemma_visible(hits: Seq<SearchItem>, hidden: Set<i64>)
    ensures
        visible(hits, hidden).len() <= hits.len(),
        forall|y: SearchItem|
            #[trigger] visible(hits, hidden).contains(y) ==> hits.contains(y) && !hidden.contains(
                y.id,
            ),
    decreases hits.len(),
{
    let out = visible(hits, hidden);
    if hits.len() > 0 {
        let front = hits.drop_last();
        let inner = visible(front, hidden);
        lemma_visible(front, hidden);
        assert forall|y: SearchItem| #[trigger] out.contains(y) implies hits.contains(y)
            && !hidden.contains(y.id) by {
            lemma_contains_last(hits, y);
            if hidden.contains(hits.last().id) {
                assert(inner.contains(y));
            } else {
                lemma_contains_last(out, y);
                assert(out.drop_last() =~= inner);
                if inner.contains(y) {
                } else {
                    assert(out.last() == hits.last());
                }
            }
        }
    }
}

/// Whether `y` is a hit of a source that was asked for.
pub open spec fn is_hit_of(y: SearchItem, found: Seq<SourceHits>, sources: Seq<i64>) -> bool {
    exists|j: int|
        0 <= j < found.len() && sources.contains(#[trigger] found[j].source_id)
            && found[j].hits@.contains(y)
}

/// Every candidate is a visible hit of a source that was asked for.
pub proof fn lemma_candidates(
    found: Seq<SourceHits>,
    sources: Seq<i64>,
    hidden: Set<i64>,
    k: nat,
)
    ensures
        forall|y: SearchItem|
            #[trigger] candidates(found, sources, hidden, k).contains(y) ==> !hidden.contains(
                y.id,
            ) && is_hit_of(y, found, sources),
    decreases found.len(),
{
    let all = candidates(found, sources, hidden, k);
    if found.len() > 0 {
        let front = found.drop_last();
        let before = candidates(front, sources, hidden, k);
        let here = contribution(found.last(), sources, hidden, k);
        let shown = visible(found.last().hits@, hidden);
        lemma_candidates(front, sources, hidden, k);
        lemma_visible(found.last().hits@, hidden);
        assert forall|y: SearchItem| #[trigger] all.contains(y) implies !hidden.contains(y.id)
            && is_hit_of(y, found, sources) by {
            let i = choose|i: int| 0 <= i < all.len() && all[i] == y;
            if i < before.len() {
                assert(before[i] == y);
                assert(before.contains(y));
                assert(is_hit_of(y, front, sources));
                let j = choose|j: int|
                    0 <= j < front.len() && sources.contains(#[trigger] front[j].source_id)
                        && front[j].hits@.contains(y);
                assert(found[j] == front[j]);
                assert(sources.contains(found[j].source_id));
            } else {
                let h = i - before.len();
                assert(here[h] == y);
                assert(shown[h] == y);
                assert(shown.contains(y));
                let j = found.len() - 1;
                assert(found[j] == found.last());
                assert(sources.contains(found[j].source_id));
            }
        }
    }
}

/// What a search returns: at most `k` results, nearest first, none of them
/// hidden, and each a hit of a source that was asked for.
pub proof fn lemma_merged(found: Seq<SourceHits>, sources: Seq<i64>, hidden: Set<i64>, k: nat)
    ensures
        merged(found, sources, hidden, k).len() <= k,
        ordered(merged(found, sources, hidden, k)),
        forall|i: int|
            0 <= i < merged(found, sources, hidden, k).len() ==> !hidden.contains(
                (#[trigger] merged(found, sources, hidden, k)[i]).id,
            ),
        forall|i: int|
            0 <= i < merged(found, sources, hidden, k).len() ==> is_hit_of(
                #[trigger] merged(found, sources, hidden, k)[i],
                found,
                sources,
            ),
{
    let all = candidates(found, sources, hidden, k);
    let sorted = by_distance(all);
    let out = merged(found, sources, hidden, k);
    lemma_by_distance(all);
    lemma_candidates(found, sources, hidden, k);
    assert forall|i: int| 0 <= i < out.len() implies !hidden.contains((#[trigger] out[i]).id)
        && is_hit_of(out[i], found, sources) by {
        assert(sorted[i] == out[i]);
        assert(sorted.contains(out[i]));
        assert(all.contains(out[i]));
    }
    assert forall|i: int, j: int| 0 <= i < j < out.len() implies rank(#[trigger] out[i].score)
        <= rank(#[trigger] out[j].score) by {
        assert(sorted[i] == out[i] && sorted[j] == out[j]);
    }
}

/// The rank of a distance.
pub fn score_rank(score: u32) -> (r: u32)
    ensures
        r == rank(score),
{
    if score >= 0x8000_0000 {
        0xffff_ffff - score
    } else {
        0x8000_0000 + score
    }
}

/// Puts `x` into `items` where it belongs by distance.
fn insert_by_distance(items: &mut Vec<SearchItem>, x: SearchItem)
    ensures
        final(items)@ == inserted(old(items)@, x),
{
    let r = score_rank(x.score);
    let mut p: usize = items.len();
    while p > 0 && score_rank(items[p - 1].score) > r
        invariant
            p <= items.len(),
            r == rank(x.score),
            forall|i: int| p <= i < items.len() ==> rank((#[trigger] items@[i]).score) > r,
        decreases p,
    {
        p = p - 1;
    }
    proof {
        lemma_farther_at_back_is(items@, r as int, p as int);
    }
    items.insert(p, x);
}

/// Orders hits by distance, nearest first.
pub fn sort_by_distance(items: &Vec<SearchItem>) -> (r: Vec<SearchItem>)
    ensures
        r@ == by_distance(items@),
{
    let mut out: Vec<SearchItem> = Vec::new();
    let mut i: usize = 0;
    while i < items.len()
        invariant
            i <= items.len(),
            out@ == by_distance(items@.take(i as int)),
        decreases items.len() - i,
    {
        proof {
            assert(items@.take(i + 1).drop_last() == items@.take(i as int));
        }
        insert_by_distance(&mut out, items[i]);
        i = i + 1;
    }
    proof {
        assert(items@.take(items.len() as int) == items@);
    }
    out
}

/// Whether `id` is among `sources`.
pub fn is_selected(sources: &[i64], id: i64) -> (r: bool)
    ensures
        r == sources@.contains(id),
{
    let mut i: usize = 0;
    while i < sources.len()
        invariant
            i <= sources.len(),
            forall|j: int| 0 <= j < i ==> sources@[j] != id,
        decreases sources.len() - i,
    {
        if sources[i] == id {
            return true;
        }
        i = i + 1;
    }
    false
}

/// Appends to `out` what one source contributes.
fn add_contribution(
    out: &mut Vec<SearchItem>,
    found: &SourceHits,
    sources: &[i64],
    hidden: &HashSet<i64>,
    num_results: usize,
)
    ensures
        final(out)@ == old(out)@ + contribution(*found, sources@, hidden@, num_results as nat),
{
    broadcast use vstd::std_specs::hash::group_hash_axioms;

    if !is_selected(sources, found.source_id) {
        assert(old(out)@ + Seq::<SearchItem>::empty() == old(out)@);
        return ;
    }
    let ghost before = out@;
    let mut taken: usize = 0;
    let mut i: usize = 0;
    while i < found.hits.len() && taken < num_results
        invariant
            i <= found.hits.len(),
            taken <= num_results,
            taken == visible(found.hits@.take(i as int), hidden@).len(),
            out@ == before + visible(found.hits@.take(i as int), hidden@),
        decreases found.hits.len() - i,
    {
        proof {
            assert(found.hits@.take(i + 1).drop_last() == found.hits@.take(i as int));
        }
        let hit = found.hits[i];
        if !hidden.contains(&hit.id) {
            out.push(hit);
            taken = taken + 1;
            assert(out@ == before + visible(found.hits@.take(i + 1), hidden@));
        }
        i = i + 1;
    }
    proof {
        let all = visible(found.hits@, hidden@);
        let seen = visible(found.hits@.take(i as int), hidden@);
        if i == found.hits.len() {
            assert(found.hits@.take(i as int) == found.hits@);
        } else {
            lemma_visible_prefix(found.hits@, hidden@, i as int);
            assert(seen == all.take(num_results as int));
        }
    }
}

/// The visible hits among the first `n` are the first of all visible hits.
pub proof fn lemma_visible_prefix(hits: Seq<SearchItem>, hidden: Set<i64>, n: int)
    requires
        0 <= n <= hits.len(),
    ensures
        visible(hits.take(n), hidden).len() <= visible(hits, hidden).len(),
        visible(hits.take(n), hidden) == visible(hits, hidden).take(
            visible(hits.take(n), hidden).len() as int,
        ),
    decreases hits.len(),
{
    if n == hits.len() {
        assert(hits.take(n) == hits);
        assert(visible(hits, hidden).take(visible(hits, hidden).len() as int) == visible(
            hits,
            hidden,
        ));
    } else {
        let front = hits.drop_last();
        lemma_visible_prefix(front, hidden, n);
        assert(front.take(n) == hits.take(n));
        let part = visible(hits.take(n), hidden);
        assert(visible(front, hidden).take(part.len() as int) == visible(hits, hidden).take(
            part.len() as int,
        ));
    }
}

/// Merges what the sources returned into the result of the search.
pub fn merge_hits(
    sources: &[i64],
    hidden: &HashSet<i64>,
    num_results: usize,
    found: &Vec<SourceHits>,
) -> (r: Vec<SearchItem>)
    ensures
        r@ == merged(found@, sources@, hidden@, num_results as nat),
        r@.len() <= num_results,
        ordered(r@),
        forall|i: int| 0 <= i < r@.len() ==> !hidden@.contains((#[trigger] r@[i]).id),
        forall|i: int| 0 <= i < r@.len() ==> is_hit_of(#[trigger] r@[i], found@, sources@),
{
    let mut all: Vec<SearchItem> = Vec::new();
    let mut j: usize = 0;
    while j < found.len()
        invariant
            j <= found.len(),
            all@ == candidates(found@.take(j as int), sources@, hidden@, num_results as nat),
        decreases found.len() - j,
    {
        proof {
            assert(found@.take(j + 1).drop_last() == found@.take(j as int));
        }
        add_contribution(&mut all, &found[j], sources, hidden, num_results);
        j = j + 1;
    }
    proof {
        assert(found@.take(found.len() as int) == found@);
        lemma_merged(found@, sources@, hidden@, num_results as nat);
    }
    let mut results = sort_by_distance(&all);
    results.truncate(num_results);
    results
}

/// The nearest-neighbour structure of one source. The structure itself is
/// kept by the caller's choice of `G`; the searcher only files it.
pub struct SourceSearch<G> {
    pub id: i64,
    pub index: G,
}

/// The structures of all indexed sources, and the items hidden since they
/// were built.
pub struct Searcher<G> {
    sources: Vec<SourceSearch<G>>,
    /// Items hidden after the structures were built. Filtering them out of
    /// every result makes a rebuild after each hiding unnecessary.
    hidden: HashSet<i64>,
}

/// Index of the first structure of source `id`, or the number of structures
/// where it has none.
pub open spec fn source_position<G>(sources: Seq<SourceSearch<G>>, id: i64) -> int
    decreases sources.len(),
{
    if sources.len() == 0 || sources[0].id == id {
        0
    } else {
        1 + source_position(sources.drop_first(), id)
    }
}

/// The structures after the one of source `rebuilt.id` was built anew: it
/// takes the place of the source's earlier structure, or joins at the end.
pub open spec fn spliced<G>(sources: Seq<SourceSearch<G>>, rebuilt: SourceSearch<G>) -> Seq<
    SourceSearch<G>,
> {
    let at = source_position(sources, rebuilt.id);
    if at < sources.len() {
        sources.update(at, rebuilt)
    } else {
        sources.push(rebuilt)
    }
}

/// The positions, in ascending order, of the structures below `n` whose
/// source is among `wanted`.
pub open spec fn selected_positions<G>(sources: Seq<SourceSearch<G>>, wanted: Seq<i64>, n: int) -> Seq<
    usize,
>
    decreases n,
{
    if n <= 0 {
        Seq::empty()
    } else if wanted.contains(sources[n - 1].id) {
        selected_positions(sources, wanted, n - 1).push((n - 1) as usize)
    } else {
        selected_positions(sources, wanted, n - 1)
    }
}

pub proof fn lemma_source_position_is<G>(sources: Seq<SourceSearch<G>>, id: i64, n: int)
    requires
        0 <= n <= sources.len(),
        forall|i: int| 0 <= i < n ==> (#[trigger] sources[i]).id != id,
        n < sources.len() ==> sources[n].id == id,
    ensures
        source_position(sources, id) == n,
    decreases sources.len(),
{
    if n > 0 {
        let rest = sources.drop_first();
        assert(sources[0].id != id);
        assert forall|i: int| 0 <= i < n - 1 implies (#[trigger] rest[i]).id != id by {
            assert(rest[i] == sources[i + 1]);
        }
        if n < sources.len() {
            assert(rest[n - 1] == sources[n]);
        }
        lemma_source_position_is(rest, id, n - 1);
    }
}

impl<G> Searcher<G> {
    /// The structures, in the order in which they are filed.
    pub closed spec fn structures(&self) -> Seq<SourceSearch<G>> {
        self.sources@
    }

    /// The items hidden since the structures were built.
    pub closed spec fn hidden(&self) -> Set<i64> {
        self.hidden@
    }

    /// How many items are hidden. A structure that is asked for this many
    /// hits more than are wanted returns enough that are visible.
    pub fn hidden_count(&self) -> (r: usize)
        ensures
            r == self.hidden().len(),
    {
        broadcast use vstd::std_specs::hash::group_hash_axioms;

        self.hidden.len()
    }

    /// Whether an item is hidden.
    pub fn is_hidden(&self, id: i64) -> (r: bool)
        ensures
            r == self.hidden().contains(id),
    {
        broadcast use vstd::std_specs::hash::group_hash_axioms;

        self.hidden.contains(&id)
    }

    /// A searcher over `sources` in which nothing is hidden.
    pub fn new(sources: Vec<SourceSearch<G>>) -> (r: Self)
        ensures
            r.structures() == sources@,
            r.hidden() == Set::<i64>::empty(),
    {
        Searcher { sources, hidden: HashSet::new() }
    }

    /// Files the structure that was built anew for one source. A source
    /// without items has no structure: then nothing changes.
    pub fn rebuild_source(&mut self, rebuilt: Option<SourceSearch<G>>)
        ensures
            final(self).hidden() == old(self).hidden(),
            final(self).structures() == match rebuilt {
                Some(source) => spliced(old(self).structures(), source),
                None => old(self).structures(),
            },
    {
        let source = match rebuilt {
            Some(source) => source,
            None => {
                return ;
            },
        };
        let ghost filed = source;
        let mut i: usize = 0;
        while i < self.sources.len()
            invariant
                i <= self.sources.len(),
                self.sources@ == old(self).sources@,
                self.hidden == old(self).hidden,
                rebuilt == Some(filed),
                filed == source,
                forall|k: int| 0 <= k < i ==> (#[trigger] self.sources@[k]).id != source.id,
            decreases self.sources.len() - i,
        {
            if self.sources[i].id == source.id {
                proof {
                    lemma_source_position_is(self.sources@, source.id, i as int);
                }
                self.sources.set(i, source);
                return ;
            }
            i = i + 1;
        }
        proof {
            lemma_source_position_is(self.sources@, source.id, i as int);
        }
        self.sources.push(source);
    }

    /// Hides an item from all later results.
    pub fn hide_item(&mut self, id: i64)
        ensures
            final(self).hidden() == old(self).hidden().insert(id),
            final(self).structures() == old(self).structures(),
    {
        broadcast use vstd::std_specs::hash::group_hash_axioms;

        self.hidden.insert(id);
    }

    /// The number of structures.
    pub fn len(&self) -> (r: usize)
        ensures
            r == self.structures().len(),
    {
        self.sources.len()
    }

    /// The structure at position `i`.
    pub fn structure(&self, i: usize) -> (r: &SourceSearch<G>)
        requires
            i < self.structures().len(),
        ensures
            *r == self.structures()[i as int],
    {
        &self.sources[i]
    }

    /// The positions of the structures that a search over `sources` asks.
    pub fn selected(&self, sources: &[i64]) -> (r: Vec<usize>)
        ensures
            r@ == selected_positions(
                self.structures(),
                sources@,
                self.structures().len() as int,
            ),
    {
        let mut out: Vec<usize> = Vec::new();
        let mut i: usize = 0;
        while i < self.sources.len()
            invariant
                i <= self.sources.len(),
                out@ == selected_positions(self.sources@, sources@, i as int),
            decreases self.sources.len() - i,
        {
            if is_selected(sources, self.sources[i].id) {
                out.push(i);
            }
            i = i + 1;
        }
        out
    }

    /// The result of a search over `sources`, from what their structures
    /// returned: the `num_results` nearest hits that are not hidden, nearest
    /// first.
    pub fn search_vector(&self, sources: &[i64], num_results: usize, found: &Vec<SourceHits>) -> (r:
        Vec<SearchItem>)
        ensures
            r@ == merged(found@, sources@, self.hidden(), num_results as nat),
            r@.len() <= num_results,
            ordered(r@),
            forall|i: int| 0 <= i < r@.len() ==> !self.hidden().contains((#[trigger] r@[i]).id),
            forall|i: int| 0 <= i < r@.len() ==> is_hit_of(#[trigger] r@[i], found@, sources@),
    {
        merge_hits(sources, &self.hidden, num_results, found)
    }
}

/// Index of the first row with identity `id`, or the number of rows where
/// there is none.
pub open spec fn item_position(rows: Seq<Item>, id: i64) -> int
    decreases rows.len(),
{
    if rows.len() == 0 || rows[0].id == id {
        0
    } else {
        1 + item_position(rows.drop_first(), id)
    }
}

/// Each hit with the row of its item, in the order of the hits; hits
/// without a row are left out, and a row is used once.
pub open spec fn paired(rows: Seq<Item>, hits: Seq<SearchItem>) -> Seq<(Item, SearchItem)>
    decreases hits.len(),
{
    if hits.len() == 0 {
        Seq::empty()
    } else {
        let at = item_position(rows, hits[0].id);
        if at < rows.len() {
            seq![(rows[at], hits[0])] + paired(rows.remove(at), hits.drop_first())
        } else {
            paired(rows, hits.drop_first())
        }
    }
}

pub proof fn lemma_item_position_is(rows: Seq<Item>, id: i64, n: int)
    requires
        0 <= n <= rows.len(),
        forall|i: int| 0 <= i < n ==> (#[trigger] rows[i]).id != id,
        n < rows.len() ==> rows[n].id == id,
    ensures
        item_position(rows, id) == n,
    decreases rows.len(),
{
    if n > 0 {
        let rest = rows.drop_first();
        assert(rows[0].id != id);
        assert forall|i: int| 0 <= i < n - 1 implies (#[trigger] rest[i]).id != id by {
            assert(rest[i] == rows[i + 1]);
        }
        if n < rows.len() {
            assert(rest[n - 1] == rows[n]);
        }
        lemma_item_position_is(rest, id, n - 1);
    }
}

/// Pairing keeps the order of the hits: every pair holds a hit and a row of
/// the same item, and pairs of ordered hits are ordered.
pub proof fn lemma_paired(rows: Seq<Item>, hits: Seq<SearchItem>)
    ensures
        paired(rows, hits).len() <= hits.len(),
        forall|i: int|
            0 <= i < paired(rows, hits).len() ==> (#[trigger] paired(rows, hits)[i]).0.id
                == paired(rows, hits)[i].1.id && hits.contains(paired(rows, hits)[i].1),
        ordered(hits) ==> forall|i: int, j: int|
            0 <= i < j < paired(rows, hits).len() ==> rank(
                (#[trigger] paired(rows, hits)[i]).1.score,
            ) <= rank((#[trigger] paired(rows, hits)[j]).1.score),
    decreases hits.len(),
{
    let out = paired(rows, hits);
    if hits.len() > 0 {
        let at = item_position(rows, hits[0].id);
        let rest = hits.drop_first();
        let left = if at < rows.len() {
            rows.remove(at)
        } else {
            rows
        };
        let tail = paired(left, rest);
        lemma_paired(left, rest);
        lemma_item_position_found(rows, hits[0].id);
        assert forall|y: SearchItem| rest.contains(y) implies hits.contains(y) by {
            let i = choose|i: int| 0 <= i < rest.len() && rest[i] == y;
            assert(hits[i + 1] == y);
        }
        assert(hits.contains(hits[0]));
        if ordered(hits) {
            assert forall|i: int, j: int| 0 <= i < j < rest.len() implies rank(
                #[trigger] rest[i].score,
            ) <= rank(#[trigger] rest[j].score) by {
                assert(rest[i] == hits[i + 1] && rest[j] == hits[j + 1]);
            }
            assert forall|y: SearchItem| rest.contains(y) implies rank(hits[0].score) <= rank(
                y.score,
            ) by {
                let i = choose|i: int| 0 <= i < rest.len() && rest[i] == y;
                assert(hits[i + 1] == y);
            }
        }
        assert forall|i: int| 0 <= i < out.len() implies (#[trigger] out[i]).0.id == out[i].1.id
            && hits.contains(out[i].1) by {
            if at < rows.len() {
                if i > 0 {
                    assert(out[i] == tail[i - 1]);
                }
            } else {
                assert(out[i] == tail[i]);
            }
        }
        if ordered(hits) {
            assert forall|i: int, j: int| 0 <= i < j < out.len() implies rank(
                (#[trigger] out[i]).1.score,
            ) <= rank((#[trigger] out[j]).1.score) by {
                if at < rows.len() {
                    assert(out[j] == tail[j - 1]);
                    assert(rest.contains(tail[j - 1].1));
                    if i > 0 {
                        assert(out[i] == tail[i - 1]);
                    }
                } else {
                    assert(out[i] == tail[i] && out[j] == tail[j]);
                }
            }
        }
    }
}

pub proof fn lemma_item_position_found(rows: Seq<Item>, id: i64)
    ensures
        0 <= item_position(rows, id) <= rows.len(),
        item_position(rows, id) < rows.len() ==> rows[item_position(rows, id)].id == id,
    decreases rows.len(),
{
    if !(rows.len() == 0 || rows[0].id == id) {
        let rest = rows.drop_first();
        lemma_item_position_found(rest, id);
        if item_position(rows, id) < rows.len() {
            assert(rows[item_position(rows, id)] == rest[item_position(rest, id)]);
        }
    }
}

/// Pairs the hits of a search with the rows read back for them, nearest
/// first. `rows` are the rows of the hits' items that the store still
/// shows; a hit whose row is missing is left out.
pub fn search_vector_and_retrieve(rows: Vec<Item>, hits: &Vec<SearchItem>) -> (r: Vec<
    (Item, SearchItem),
>)
    ensures
        r@ == paired(rows@, by_distance(hits@)),
        r@.len() <= hits@.len(),
        forall|i: int|
            0 <= i < r@.len() ==> (#[trigger] r@[i]).0.id == r@[i].1.id && hits@.contains(r@[i].1),
        forall|i: int, j: int|
            0 <= i < j < r@.len() ==> rank((#[trigger] r@[i]).1.score) <= rank(
                (#[trigger] r@[j]).1.score,
            ),
{
    let sorted = sort_by_distance(hits);
    let mut left = rows;
    let mut out: Vec<(Item, SearchItem)> = Vec::new();
    let mut h: usize = 0;
    proof {
        lemma_by_distance(hits@);
        lemma_paired(rows@, sorted@);
        assert(sorted@.skip(0) == sorted@);
        assert(out@ + paired(left@, sorted@) == paired(rows@, sorted@));
    }
    while h < sorted.len()
        invariant
            h <= sorted.len(),
            paired(rows@, sorted@) == out@ + paired(left@, sorted@.skip(h as int)),
        decreases sorted.len() - h,
    {
        let hit = sorted[h];
        let ghost rest = sorted@.skip(h as int);
        proof {
            assert(rest[0] == hit);
            assert(rest.drop_first() == sorted@.skip(h + 1));
        }
        let mut j: usize = 0;
        while j < left.len() && left[j].id != hit.id
            invariant
                j <= left.len(),
                forall|k: int| 0 <= k < j ==> (#[trigger] left@[k]).id != hit.id,
            decreases left.len() - j,
        {
            j = j + 1;
        }
        proof {
            lemma_item_position_is(left@, hit.id, j as int);
        }
        if j < left.len() {
            let row = left.remove(j);
            out.push((row, hit));
        }
        h = h + 1;
    }
    proof {
        assert(sorted@.skip(sorted.len() as int) == Seq::<SearchItem>::empty());
    }
    out
}

/// One stored embedding, with the item and the source it belongs to.
#[derive(Debug, Clone, PartialEq, Eq)]
pub struct StoredEmbedding {
    pub item_id: i64,
    pub source_id: i64,
    pub embedding: Vec<u32>,
}

/// A point of a nearest-neighbour structure: a vector under the identity of
/// its item.
#[derive(Debug, Clone, PartialEq, Eq)]
pub struct Point {
    pub item_id: i64,
    pub embedding: Vec<u32>,
}

/// The points from which the structure of one source is built.
#[derive(Debug, Clone, PartialEq, Eq)]
pub struct SourcePoints {
    pub source_id: i64,
    pub points: Vec<Point>,
}

/// Index of the first occurrence of `id` in `ids`, or the length of `ids`
/// where it does not occur.
pub open spec fn id_position(ids: Seq<i64>, id: i64) -> int
    decreases ids.len(),
{
    if ids.len() == 0 || ids[0] == id {
        0
    } else {
        1 + id_position(ids.drop_first(), id)
    }
}

/// The points, among the first `n` rows, that go to the source at position
/// `at` of `sources`: those of the rows whose source stands there first.
pub open spec fn points_at(sources: Seq<i64>, rows: Seq<StoredEmbedding>, n: int, at: int) -> Seq<
    Point,
>
    decreases n,
{
    if n <= 0 {
        Seq::empty()
    } else if id_position(sources, rows[n - 1].source_id) == at {
        points_at(sources, rows, n - 1, at).push(
            Point { item_id: rows[n - 1].item_id, embedding: rows[n - 1].embedding },
        )
    } else {
        points_at(sources, rows, n - 1, at)
    }
}

/// The positions below `n` of the sources that have points, in order.
pub open spec fn built_positions(sources: Seq<i64>, rows: Seq<StoredEmbedding>, n: int) -> Seq<int>
    decreases n,
{
    if n <= 0 {
        Seq::empty()
    } else if points_at(sources, rows, rows.len() as int, n - 1).len() > 0 {
        built_positions(sources, rows, n - 1).push(n - 1)
    } else {
        built_positions(sources, rows, n - 1)
    }
}

pub proof fn lemma_id_position_is(ids: Seq<i64>, id: i64, n: int)
    requires
        0 <= n <= ids.len(),
        forall|i: int| 0 <= i < n ==> #[trigger] ids[i] != id,
        n < ids.len() ==> ids[n] == id,
    ensures
        id_position(ids, id) == n,
    decreases ids.len(),
{
    if n > 0 {
        let rest = ids.drop_first();
        assert(ids[0] != id);
        assert forall|i: int| 0 <= i < n - 1 implies #[trigger] rest[i] != id by {
            assert(rest[i] == ids[i + 1]);
        }
        if n < ids.len() {
            assert(rest[n - 1] == ids[n]);
        }
        lemma_id_position_is(rest, id, n - 1);
    }
}

/// Whether `built` holds the points of the source at position `at`, which
/// has some.
pub open spec fn is_built(
    built: SourcePoints,
    sources: Seq<i64>,
    rows: Seq<StoredEmbedding>,
    at: int,
) -> bool {
    &&& 0 <= at < sources.len()
    &&& built.source_id == sources[at]
    &&& built.points@ == points_at(sources, rows, rows.len() as int, at)
    &&& built.points@.len() > 0
}

/// Index of the first occurrence of `id` in `ids`, if it occurs.
fn find_id(ids: &[i64], id: i64) -> (r: Option<usize>)
    ensures
        match r {
            Some(at) => at == id_position(ids@, id) && at < ids@.len(),
            None => id_position(ids@, id) == ids@.len(),
        },
{
    let mut i: usize = 0;
    while i < ids.len()
        invariant
            i <= ids.len(),
            forall|k: int| 0 <= k < i ==> #[trigger] ids@[k] != id,
        decreases ids.len() - i,
    {
        if ids[i] == id {
            proof {
                lemma_id_position_is(ids@, id, i as int);
            }
            return Some(i);
        }
        i = i + 1;
    }
    proof {
        lemma_id_position_is(ids@, id, i as int);
    }
    None
}

/// Sorts the stored embeddings by source, for the building of one
/// structure per source. `rows` are the embeddings of the items that are
/// neither skipped nor hidden. Every row goes to its source, in the order of
/// the rows; rows of sources that were not asked for are left out, and so
/// are sources without rows.
pub fn build_sources(sources: &[i64], rows: Vec<StoredEmbedding>) -> (r: Vec<SourcePoints>)
    ensures
        r@.len() == built_positions(sources@, rows@, sources@.len() as int).len(),
        forall|i: int|
            0 <= i < r@.len() ==> is_built(
                #[trigger] r@[i],
                sources@,
                rows@,
                built_positions(sources@, rows@, sources@.len() as int)[i],
            ),
{
    let mut buckets: Vec<Vec<Point>> = Vec::new();
    let mut b: usize = 0;
    while b < sources.len()
        invariant
            b <= sources.len(),
            buckets@.len() == b,
            forall|k: int| 0 <= k < b ==> (#[trigger] buckets@[k])@ == Seq::<Point>::empty(),
        decreases sources.len() - b,
    {
        buckets.push(Vec::new());
        b = b + 1;
    }
    let ghost all = rows@;
    for row in it: rows
        invariant
            it.seq() == all,
            buckets@.len() == sources@.len(),
            forall|k: int|
                0 <= k < buckets@.len() ==> (#[trigger] buckets@[k])@ == points_at(
                    sources@,
                    all,
                    it.index() as int,
                    k,
                ),
    {
        let StoredEmbedding { item_id, source_id, embedding } = row;
        match find_id(sources, source_id) {
            Some(at) => {
                let mut bucket: Vec<Point> = Vec::new();
                buckets.set_and_swap(at, &mut bucket);
                bucket.push(Point { item_id, embedding });
                buckets.set(at, bucket);
            },
            None => {},
        }
    }
    let mut out: Vec<SourcePoints> = Vec::new();
    let ghost filled = buckets@;
    let total = buckets.len();
    let mut at: usize = 0;
    for bucket in it: buckets
        invariant
            it.seq() == filled,
            filled.len() == sources@.len(),
            filled.len() == total,
            at == it.index(),
            forall|k: int|
                0 <= k < filled.len() ==> (#[trigger] filled[k])@ == points_at(
                    sources@,
                    all,
                    all.len() as int,
                    k,
                ),
            out@.len() == built_positions(sources@, all, it.index() as int).len(),
            forall|i: int|
                0 <= i < out@.len() ==> is_built(
                    #[trigger] out@[i],
                    sources@,
                    all,
                    built_positions(sources@, all, it.index() as int)[i],
                ),
    {
        let ghost before = built_positions(sources@, all, at as int);
        let ghost after = built_positions(sources@, all, at + 1);
        assert(at < filled.len());
        assert(bucket@ == points_at(sources@, all, all.len() as int, at as int)) by {
            assert(bucket == filled[at as int]);
        }
        if bucket.len() > 0 {
            let built = SourcePoints { source_id: sources[at], points: bucket };
            proof {
                assert(after == before.push(at as int));
                assert(is_built(built, sources@, all, at as int));
                assert forall|i: int| 0 <= i < out@.push(built).len() implies is_built(
                    #[trigger] out@.push(built)[i],
                    sources@,
                    all,
                    after[i],
                ) by {
                    if i < out@.len() {
                        assert(out@.push(built)[i] == out@[i]);
                        assert(after[i] == before[i]);
                    }
                }
            }
            out.push(built);
        } else {
            proof {
                assert(after == before);
            }
        }
        at = at + 1;
    }
    out
}

} // verus!
