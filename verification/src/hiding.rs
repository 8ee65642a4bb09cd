//! What a search returns, said once more without the cut at each source,
//! and what hiding an item does to it.
//!
//! A search cuts what every source returned to the wanted number before it
//! puts the sources together. Where every source returned its hits nearest
//! first, that cut changes nothing: the result is the nearest of all
//! visible hits. Hiding an item then takes it, and nothing else, out of
//! that order.

use vstd::prelude::*;
use crate::search::by_distance;
use crate::search::candidates;
use crate::search::contribution;
use crate::search::farther_at_back;
use crate::search::first_up_to;
use crate::search::inserted;
use crate::search::lemma_by_distance;
use crate::search::lemma_farther_at_back;
use crate::search::lemma_farther_at_back_is;
use crate::search::lemma_inserted;
use crate::search::lemma_visible;
use crate::search::merged;
use crate::search::ordered;
use crate::search::rank;
use crate::search::visible;
use crate::search::SearchItem;
use crate::search::SourceHits;

verus! {

/// The visible hits of one source, where the source was asked for.
pub open spec fn shown(found: SourceHits, sources: Seq<i64>, hidden: Set<i64>) -> Seq<SearchItem> {
    if sources.contains(found.source_id) {
        visible(found.hits@, hidden)
    } else {
        Seq::empty()
    }
}

/// The visible hits of all sources that were asked for, one source after
/// the other.
pub open spec fn all_visible(found: Seq<SourceHits>, sources: Seq<i64>, hidden: Set<i64>) -> Seq<
    SearchItem,
>
    decreases found.len(),
{
    if found.len() == 0 {
        Seq::empty()
    } else {
        all_visible(found.drop_last(), sources, hidden) + shown(found.last(), sources, hidden)
    }
}

/// All visible hits in order of distance, nearest first.
pub open spec fn ranking(found: Seq<SourceHits>, sources: Seq<i64>, hidden: Set<i64>) -> Seq<
    SearchItem,
> {
    by_distance(all_visible(found, sources, hidden))
}

/// Whether every source returned its hits nearest first.
pub open spec fn nearest_first(found: Seq<SourceHits>) -> bool {
    forall|j: int| 0 <= j < found.len() ==> ordered((#[trigger] found[j]).hits@)
}

/// `items`, and then each of `more` put in where it belongs by distance.
pub open spec fn inserted_all(items: Seq<SearchItem>, more: Seq<SearchItem>) -> Seq<SearchItem>
    decreases more.len(),
{
    if more.len() == 0 {
        items
    } else {
        inserted(inserted_all(items, more.drop_last()), more.last())
    }
}

/// How many of `items` are at most as far as `r`.
pub open spec fn count_within(items: Seq<SearchItem>, r: int) -> nat
    decreases items.len(),
{
    if items.len() == 0 {
        0
    } else if rank(items.last().score) <= r {
        1 + count_within(items.drop_last(), r)
    } else {
        count_within(items.drop_last(), r)
    }
}

/// The visible of two lists put together are the visible of each, put
/// together.
pub proof fn lemma_visible_concat(a: Seq<SearchItem>, b: Seq<SearchItem>, hidden: Set<i64>)
    ensures
        visible(a + b, hidden) == visible(a, hidden) + visible(b, hidden),
    decreases b.len(),
{
    if b.len() == 0 {
        assert(a + b == a);
        assert(visible(a, hidden) + visible(b, hidden) == visible(a, hidden));
    } else {
        assert((a + b).drop_last() == a + b.drop_last());
        assert((a + b).last() == b.last());
        lemma_visible_concat(a, b.drop_last(), hidden);
        if !hidden.contains(b.last().id) {
            assert((visible(a, hidden) + visible(b.drop_last(), hidden)).push(b.last())
                == visible(a, hidden) + visible(b.drop_last(), hidden).push(b.last()));
        }
    }
}

/// Hiding one item more takes that item out of what was visible.
pub proof fn lemma_visible_after_hiding(hits: Seq<SearchItem>, hidden: Set<i64>, id: i64)
    ensures
        visible(hits, hidden.insert(id)) == visible(visible(hits, hidden), set![id]),
    decreases hits.len(),
{
    if hits.len() > 0 {
        lemma_visible_after_hiding(hits.drop_last(), hidden, id);
        let last = hits.last();
        if !hidden.contains(last.id) {
            let before = visible(hits.drop_last(), hidden);
            assert(before.push(last).drop_last() == before);
        }
    }
}

/// The element at a place of the visible is one of the hits and not hidden.
pub proof fn lemma_visible_element(hits: Seq<SearchItem>, hidden: Set<i64>, i: int)
    requires
        0 <= i < visible(hits, hidden).len(),
    ensures
        hits.contains(visible(hits, hidden)[i]),
        !hidden.contains(visible(hits, hidden)[i].id),
{
    lemma_visible(hits, hidden);
    assert(visible(hits, hidden).contains(visible(hits, hidden)[i]));
}

/// Hits in order stay in order when some are hidden.
pub proof fn lemma_visible_ordered(hits: Seq<SearchItem>, hidden: Set<i64>)
    requires
        ordered(hits),
    ensures
        ordered(visible(hits, hidden)),
    decreases hits.len(),
{
    if hits.len() > 0 {
        let front = hits.drop_last();
        assert(ordered(front)) by {
            assert forall|i: int, j: int| 0 <= i < j < front.len() implies rank(
                #[trigger] front[i].score,
            ) <= rank(#[trigger] front[j].score) by {
                assert(front[i] == hits[i] && front[j] == hits[j]);
            }
        }
        lemma_visible_ordered(front, hidden);
        if !hidden.contains(hits.last().id) {
            let inner = visible(front, hidden);
            let out = inner.push(hits.last());
            assert forall|i: int, j: int| 0 <= i < j < out.len() implies rank(
                #[trigger] out[i].score,
            ) <= rank(#[trigger] out[j].score) by {
                if j == inner.len() {
                    lemma_visible_element(front, hidden, i);
                    let e = inner[i];
                    let w = choose|w: int| 0 <= w < front.len() && front[w] == e;
                    assert(hits[w] == e);
                    assert(rank(hits[w].score) <= rank(hits[hits.len() - 1].score));
                } else {
                    assert(out[i] == inner[i] && out[j] == inner[j]);
                }
            }
        }
    }
}

/// Hits that are in order already are their own order by distance.
pub proof fn lemma_by_distance_of_ordered(items: Seq<SearchItem>)
    requires
        ordered(items),
    ensures
        by_distance(items) == items,
    decreases items.len(),
{
    if items.len() > 0 {
        let front = items.drop_last();
        assert(ordered(front)) by {
            assert forall|i: int, j: int| 0 <= i < j < front.len() implies rank(
                #[trigger] front[i].score,
            ) <= rank(#[trigger] front[j].score) by {
                assert(front[i] == items[i] && front[j] == items[j]);
            }
        }
        lemma_by_distance_of_ordered(front);
        let r = rank(items.last().score);
        if front.len() > 0 {
            assert(rank(items[front.len() - 1].score) <= rank(items[items.len() - 1].score));
            assert(front[front.len() - 1] == items[front.len() - 1]);
        }
        lemma_farther_at_back_is(front, r, front.len() as int);
        assert(front.insert(front.len() as int, items.last()) == items);
    } else {
        assert(by_distance(items) == items);
    }
}

/// The order by distance of two lists put together is that of the first
/// with the second put in, item by item.
pub proof fn lemma_by_distance_concat(a: Seq<SearchItem>, b: Seq<SearchItem>)
    ensures
        by_distance(a + b) == inserted_all(by_distance(a), b),
    decreases b.len(),
{
    if b.len() == 0 {
        assert(a + b == a);
    } else {
        assert((a + b).drop_last() == a + b.drop_last());
        assert((a + b).last() == b.last());
        lemma_by_distance_concat(a, b.drop_last());
    }
}

/// Putting items into a list in order leaves it in order.
pub proof fn lemma_inserted_all_ordered(items: Seq<SearchItem>, more: Seq<SearchItem>)
    requires
        ordered(items),
    ensures
        ordered(inserted_all(items, more)),
    decreases more.len(),
{
    if more.len() > 0 {
        lemma_inserted_all_ordered(items, more.drop_last());
        lemma_inserted(inserted_all(items, more.drop_last()), more.last());
    }
}

/// The first of a list in order are in order.
pub proof fn lemma_first_up_to_ordered(items: Seq<SearchItem>, k: nat)
    requires
        ordered(items),
    ensures
        ordered(first_up_to(items, k)),
{
    let out = first_up_to(items, k);
    assert forall|i: int, j: int| 0 <= i < j < out.len() implies rank(#[trigger] out[i].score)
        <= rank(#[trigger] out[j].score) by {
        assert(out[i] == items[i] && out[j] == items[j]);
    }
}

/// Of a list in order with one item put in, the first `k` depend only on
/// the first `k` of the list.
pub proof fn lemma_inserted_first(items: Seq<SearchItem>, y: SearchItem, k: nat)
    requires
        ordered(items),
    ensures
        first_up_to(inserted(items, y), k) == first_up_to(inserted(first_up_to(items, k), y), k),
{
    if items.len() > k {
        let r = rank(y.score);
        let p = items.len() - farther_at_back(items, r);
        let cut = items.take(k as int);
        lemma_farther_at_back(items, r);
        if k == 0 {
            assert(first_up_to(inserted(items, y), k) == Seq::<SearchItem>::empty());
            assert(first_up_to(inserted(cut, y), k) == Seq::<SearchItem>::empty());
        } else {
            let n = if p < k {
                p
            } else {
                k as int
            };
            assert forall|i: int| n <= i < cut.len() implies rank((#[trigger] cut[i]).score)
                > r by {
                assert(cut[i] == items[i]);
            }
            if n > 0 {
                assert(cut[n - 1] == items[n - 1]);
                if n - 1 < p - 1 {
                    assert(rank(items[n - 1].score) <= rank(items[p - 1].score));
                }
            }
            lemma_farther_at_back_is(cut, r, n);
            assert(inserted(cut, y) == cut.insert(n, y));
            assert(inserted(items, y) == items.insert(p, y));
            assert(items.insert(p, y).take(k as int) == cut.insert(n, y).take(k as int));
        }
    }
}

/// Of a list in order with items put in, the first `k` depend only on the
/// first `k` of the list.
pub proof fn lemma_inserted_all_first(items: Seq<SearchItem>, more: Seq<SearchItem>, k: nat)
    requires
        ordered(items),
    ensures
        first_up_to(inserted_all(items, more), k) == first_up_to(
            inserted_all(first_up_to(items, k), more),
            k,
        ),
    decreases more.len(),
{
    if more.len() == 0 {
        if items.len() > k {
            assert(items.take(k as int).take(k as int) == items.take(k as int));
        }
    } else {
        let front = more.drop_last();
        let y = more.last();
        let whole = inserted_all(items, front);
        let part = inserted_all(first_up_to(items, k), front);
        lemma_first_up_to_ordered(items, k);
        lemma_inserted_all_ordered(items, front);
        lemma_inserted_all_ordered(first_up_to(items, k), front);
        lemma_inserted_all_first(items, front, k);
        lemma_inserted_first(whole, y, k);
        lemma_inserted_first(part, y, k);
    }
}

/// No more items are within a distance than there are items.
pub proof fn lemma_count_within_bound(items: Seq<SearchItem>, r: int)
    ensures
        count_within(items, r) <= items.len(),
    decreases items.len(),
{
    if items.len() > 0 {
        lemma_count_within_bound(items.drop_last(), r);
    }
}

/// Where all items are within a distance, their number is the count.
pub proof fn lemma_count_within_all(items: Seq<SearchItem>, r: int)
    requires
        forall|i: int| 0 <= i < items.len() ==> rank((#[trigger] items[i]).score) <= r,
    ensures
        count_within(items, r) == items.len(),
    decreases items.len(),
{
    if items.len() > 0 {
        let front = items.drop_last();
        assert forall|i: int| 0 <= i < front.len() implies rank((#[trigger] front[i]).score)
            <= r by {
            assert(front[i] == items[i]);
        }
        lemma_count_within_all(front, r);
        assert(rank(items[items.len() - 1].score) <= r);
    }
}

/// An item put in counts once where it is within the distance.
pub proof fn lemma_count_within_insert(items: Seq<SearchItem>, p: int, y: SearchItem, r: int)
    requires
        0 <= p <= items.len(),
    ensures
        count_within(items.insert(p, y), r) == count_within(items, r) + if rank(y.score) <= r {
            1nat
        } else {
            0nat
        },
    decreases items.len(),
{
    let out = items.insert(p, y);
    if p == items.len() {
        assert(out.drop_last() == items);
        assert(out.last() == y);
    } else {
        assert(out.drop_last() == items.drop_last().insert(p, y));
        assert(out.last() == items.last());
        lemma_count_within_insert(items.drop_last(), p, y, r);
    }
}

/// Items put into a list count as the list and the items do.
pub proof fn lemma_count_within_inserted_all(
    items: Seq<SearchItem>,
    more: Seq<SearchItem>,
    r: int,
)
    ensures
        count_within(inserted_all(items, more), r) == count_within(items, r) + count_within(
            more,
            r,
        ),
    decreases more.len(),
{
    if more.len() > 0 {
        let before = inserted_all(items, more.drop_last());
        lemma_count_within_inserted_all(items, more.drop_last(), r);
        lemma_farther_at_back(before, rank(more.last().score));
        lemma_count_within_insert(
            before,
            before.len() - farther_at_back(before, rank(more.last().score)),
            more.last(),
            r,
        );
    }
}

/// In a list in order, an item that is farther than `r` has all that are
/// within `r` before it.
pub proof fn lemma_count_within_before(items: Seq<SearchItem>, r: int, i: int)
    requires
        ordered(items),
        0 <= i < items.len(),
        rank(items[i].score) > r,
    ensures
        count_within(items, r) <= i,
    decreases items.len(),
{
    let front = items.drop_last();
    if i < items.len() - 1 {
        assert(rank(items[i].score) <= rank(items[items.len() - 1].score));
        assert(ordered(front)) by {
            assert forall|a: int, b: int| 0 <= a < b < front.len() implies rank(
                #[trigger] front[a].score,
            ) <= rank(#[trigger] front[b].score) by {
                assert(front[a] == items[a] && front[b] == items[b]);
            }
        }
        assert(front[i] == items[i]);
        lemma_count_within_before(front, r, i);
    } else {
        lemma_count_within_bound(front, r);
    }
}

/// An item that is put into a list in order behind `k` others or more
/// leaves the first `k` as they are.
pub proof fn lemma_inserted_behind(items: Seq<SearchItem>, y: SearchItem, k: nat)
    requires
        ordered(items),
        count_within(items, rank(y.score)) >= k,
    ensures
        first_up_to(inserted(items, y), k) == first_up_to(items, k),
{
    let r = rank(y.score);
    let p = items.len() - farther_at_back(items, r);
    lemma_farther_at_back(items, r);
    lemma_count_within_bound(items, r);
    if p < items.len() {
        lemma_count_within_before(items, r, p);
    }
    assert(p >= k);
    if items.len() > k {
        assert(items.insert(p, y).take(k as int) == items.take(k as int));
    } else {
        assert(items.insert(p, y).take(k as int) == items);
    }
}

/// Of a list in order with a second list in order put in, the first `k`
/// depend only on the first `k` of the second list.
pub proof fn lemma_inserted_all_cut(items: Seq<SearchItem>, more: Seq<SearchItem>, k: nat)
    requires
        ordered(items),
        ordered(more),
    ensures
        first_up_to(inserted_all(items, more), k) == first_up_to(
            inserted_all(items, first_up_to(more, k)),
            k,
        ),
    decreases more.len(),
{
    if more.len() > k {
        let front = more.drop_last();
        let y = more.last();
        let r = rank(y.score);
        assert(ordered(front)) by {
            assert forall|a: int, b: int| 0 <= a < b < front.len() implies rank(
                #[trigger] front[a].score,
            ) <= rank(#[trigger] front[b].score) by {
                assert(front[a] == more[a] && front[b] == more[b]);
            }
        }
        assert(first_up_to(front, k) == first_up_to(more, k)) by {
            assert(front.take(k as int) == more.take(k as int));
        }
        lemma_inserted_all_cut(items, front, k);
        let whole = inserted_all(items, front);
        lemma_inserted_all_ordered(items, front);
        assert forall|i: int| 0 <= i < front.len() implies rank((#[trigger] front[i]).score)
            <= r by {
            assert(front[i] == more[i]);
            assert(rank(more[i].score) <= rank(more[more.len() - 1].score));
        }
        lemma_count_within_all(front, r);
        lemma_count_within_inserted_all(items, front, r);
        lemma_inserted_behind(whole, y, k);
    }
}

/// What a source contributes is the first of what it shows.
pub proof fn lemma_contribution_is_cut(
    found: SourceHits,
    sources: Seq<i64>,
    hidden: Set<i64>,
    k: nat,
)
    ensures
        contribution(found, sources, hidden, k) == first_up_to(shown(found, sources, hidden), k),
{
}

/// Where every source returned its hits nearest first, the cut at each
/// source takes nothing from the result: a search returns the first `k` of
/// all visible hits in order of distance.
pub proof fn lemma_merged_is_nearest(
    found: Seq<SourceHits>,
    sources: Seq<i64>,
    hidden: Set<i64>,
    k: nat,
)
    requires
        nearest_first(found),
    ensures
        merged(found, sources, hidden, k) == first_up_to(ranking(found, sources, hidden), k),
    decreases found.len(),
{
    if found.len() == 0 {
    } else {
        let front = found.drop_last();
        let last = found.last();
        assert(nearest_first(front)) by {
            assert forall|j: int| 0 <= j < front.len() implies ordered(
                (#[trigger] front[j]).hits@,
            ) by {
                assert(front[j] == found[j]);
            }
        }
        lemma_merged_is_nearest(front, sources, hidden, k);
        let cut = candidates(front, sources, hidden, k);
        let all = all_visible(front, sources, hidden);
        let more = shown(last, sources, hidden);
        assert(ordered(more)) by {
            if sources.contains(last.source_id) {
                assert(found[found.len() - 1] == last);
                lemma_visible_ordered(last.hits@, hidden);
            }
        }
        lemma_by_distance(cut);
        lemma_by_distance(all);
        lemma_contribution_is_cut(last, sources, hidden, k);
        // The result, read from the cut candidates ...
        lemma_by_distance_concat(cut, first_up_to(more, k));
        lemma_inserted_all_cut(by_distance(cut), more, k);
        lemma_inserted_all_first(by_distance(cut), more, k);
        // ... and read from all visible hits.
        lemma_by_distance_concat(all, more);
        lemma_inserted_all_first(by_distance(all), more, k);
        assert(first_up_to(by_distance(cut), k) == first_up_to(by_distance(all), k));
    }
}

/// Hiding one item more takes that item out of all visible hits.
pub proof fn lemma_all_visible_after_hiding(
    found: Seq<SourceHits>,
    sources: Seq<i64>,
    hidden: Set<i64>,
    id: i64,
)
    ensures
        all_visible(found, sources, hidden.insert(id)) == visible(
            all_visible(found, sources, hidden),
            set![id],
        ),
    decreases found.len(),
{
    if found.len() > 0 {
        let front = found.drop_last();
        let last = found.last();
        lemma_all_visible_after_hiding(front, sources, hidden, id);
        lemma_visible_concat(
            all_visible(front, sources, hidden),
            shown(last, sources, hidden),
            set![id],
        );
        if sources.contains(last.source_id) {
            lemma_visible_after_hiding(last.hits@, hidden, id);
        }
    }
}

/// Taking hidden items out of a list in order with an item put in is
/// putting the item, unless it is hidden, into the list without its hidden
/// items.
pub proof fn lemma_visible_of_inserted(items: Seq<SearchItem>, y: SearchItem, hidden: Set<i64>)
    requires
        ordered(items),
    ensures
        visible(inserted(items, y), hidden) == if hidden.contains(y.id) {
            visible(items, hidden)
        } else {
            inserted(visible(items, hidden), y)
        },
{
    let r = rank(y.score);
    let p = items.len() - farther_at_back(items, r);
    lemma_farther_at_back(items, r);
    let head = items.subrange(0, p);
    let back = items.subrange(p, items.len() as int);
    let one = seq![y];
    assert(items == head + back);
    assert(items.insert(p, y) == (head + one) + back);
    lemma_visible_concat(head, back, hidden);
    lemma_visible_concat(head + one, back, hidden);
    lemma_visible_concat(head, one, hidden);
    assert(one.drop_last() == Seq::<SearchItem>::empty());
    assert(visible(one.drop_last(), hidden) == Seq::<SearchItem>::empty());
    let vh = visible(head, hidden);
    let vb = visible(back, hidden);
    if hidden.contains(y.id) {
        assert(visible(one, hidden) == Seq::<SearchItem>::empty());
        assert(vh + Seq::<SearchItem>::empty() + vb == vh + vb);
    } else {
        assert(visible(one, hidden) == one);
        let shown = vh + vb;
        let n = vh.len() as int;
        assert forall|i: int| n <= i < shown.len() implies rank((#[trigger] shown[i]).score)
            > r by {
            lemma_visible_element(back, hidden, i - n);
            let e = vb[i - n];
            assert(shown[i] == e);
            let w = choose|w: int| 0 <= w < back.len() && back[w] == e;
            assert(back[w] == items[p + w]);
        }
        if n > 0 {
            lemma_visible_element(head, hidden, n - 1);
            let e = vh[n - 1];
            assert(shown[n - 1] == e);
            let w = choose|w: int| 0 <= w < head.len() && head[w] == e;
            assert(head[w] == items[w]);
            if w < p - 1 {
                assert(rank(items[w].score) <= rank(items[p - 1].score));
            }
        }
        lemma_farther_at_back_is(shown, r, n);
        assert(shown.insert(n, y) == (vh + one) + vb);
    }
}

/// It is the same to take hidden items out before or after the hits are put
/// in order of distance.
pub proof fn lemma_by_distance_of_visible(items: Seq<SearchItem>, hidden: Set<i64>)
    ensures
        by_distance(visible(items, hidden)) == visible(by_distance(items), hidden),
    decreases items.len(),
{
    if items.len() > 0 {
        let front = items.drop_last();
        let y = items.last();
        lemma_by_distance_of_visible(front, hidden);
        lemma_by_distance(front);
        lemma_visible_of_inserted(by_distance(front), y, hidden);
        if !hidden.contains(y.id) {
            let before = visible(front, hidden);
            assert(before.push(y).drop_last() == before);
        }
    }
}

/// Hiding one item more takes that item, and nothing else, out of the order
/// of all visible hits.
pub proof fn lemma_ranking_after_hiding(
    found: Seq<SourceHits>,
    sources: Seq<i64>,
    hidden: Set<i64>,
    id: i64,
)
    ensures
        ranking(found, sources, hidden.insert(id)) == visible(
            ranking(found, sources, hidden),
            set![id],
        ),
{
    lemma_all_visible_after_hiding(found, sources, hidden, id);
    lemma_by_distance_of_visible(all_visible(found, sources, hidden), set![id]);
}

/// A list of which nothing is hidden is all visible.
pub proof fn lemma_visible_of_nothing_hidden(items: Seq<SearchItem>, hidden: Set<i64>)
    requires
        forall|i: int| 0 <= i < items.len() ==> !hidden.contains((#[trigger] items[i]).id),
    ensures
        visible(items, hidden) == items,
    decreases items.len(),
{
    if items.len() > 0 {
        let front = items.drop_last();
        assert forall|i: int| 0 <= i < front.len() implies !hidden.contains(
            (#[trigger] front[i]).id,
        ) by {
            assert(front[i] == items[i]);
        }
        lemma_visible_of_nothing_hidden(front, hidden);
        assert(!hidden.contains(items[items.len() - 1].id));
        assert(front.push(items.last()) == items);
    }
}

/// Searching again after an item was hidden, with nothing built anew:
/// where every source returned its hits nearest first, both results are
/// read from one order, that of all hits that were visible at first. The
/// first result is the first `k` of that order, and the second is the first
/// `k` of the same order without the hidden item. So what was returned
/// before and is not hidden comes back in the same order, and the places
/// that the hidden item left are taken by the next nearest.
pub proof fn lemma_search_after_hiding(
    found: Seq<SourceHits>,
    sources: Seq<i64>,
    hidden: Set<i64>,
    k: nat,
    id: i64,
)
    requires
        nearest_first(found),
    ensures
        merged(found, sources, hidden, k) == first_up_to(ranking(found, sources, hidden), k),
        merged(found, sources, hidden.insert(id), k) == first_up_to(
            visible(ranking(found, sources, hidden), set![id]),
            k,
        ),
{
    lemma_merged_is_nearest(found, sources, hidden, k);
    lemma_merged_is_nearest(found, sources, hidden.insert(id), k);
    lemma_ranking_after_hiding(found, sources, hidden, id);
}

/// The same, where the hidden item was returned once, at place `at`, and
/// more than `k` hits were visible: the second result is the first without
/// its member at `at`, and then the nearest hit that the first result had
/// no room for.
pub proof fn lemma_hidden_result_is_replaced(
    found: Seq<SourceHits>,
    sources: Seq<i64>,
    hidden: Set<i64>,
    k: nat,
    id: i64,
    at: int,
)
    requires
        nearest_first(found),
        0 <= at < k < ranking(found, sources, hidden).len(),
        forall|i: int|
            0 <= i < ranking(found, sources, hidden).len() ==> ((#[trigger] ranking(
                found,
                sources,
                hidden,
            )[i]).id == id <==> i == at),
    ensures
        merged(found, sources, hidden.insert(id), k) == merged(found, sources, hidden, k).remove(
            at,
        ).push(ranking(found, sources, hidden)[k as int]),
{
    let order = ranking(found, sources, hidden);
    let head = order.subrange(0, at);
    let one = seq![order[at]];
    let back = order.subrange(at + 1, order.len() as int);
    let gone = set![id];
    lemma_search_after_hiding(found, sources, hidden, k, id);
    assert(order == (head + one) + back);
    lemma_visible_concat(head + one, back, gone);
    lemma_visible_concat(head, one, gone);
    assert forall|i: int| 0 <= i < head.len() implies !gone.contains((#[trigger] head[i]).id) by {
        assert(head[i] == order[i]);
    }
    assert forall|i: int| 0 <= i < back.len() implies !gone.contains((#[trigger] back[i]).id) by {
        assert(back[i] == order[at + 1 + i]);
    }
    lemma_visible_of_nothing_hidden(head, gone);
    lemma_visible_of_nothing_hidden(back, gone);
    assert(one.drop_last() == Seq::<SearchItem>::empty());
    assert(order[at].id == id);
    assert(one.last() == order[at]);
    assert(gone.contains(one.last().id));
    assert(visible(one.drop_last(), gone) == Seq::<SearchItem>::empty());
    assert(visible(one, gone) == Seq::<SearchItem>::empty());
    assert(visible(order, gone) == order.remove(at)) by {
        assert(head + Seq::<SearchItem>::empty() + back == order.remove(at));
    }
    assert(first_up_to(order.remove(at), k) == order.take(k as int).remove(at).push(
        order[k as int],
    ));
}

} // verus!
