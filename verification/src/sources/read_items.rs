//! The reader: has the scanner read every item that is not yet known to be
//! unchanged, and settles the item's state from what was read.

use vstd::prelude::*;
use std::sync::atomic::Ordering;
use crate::Item;
use crate::sources::ItemCompareStrategy;
use crate::sources::pipeline::FoundItem;
use crate::sources::pipeline::ScanItem;
use crate::sources::pipeline::ScanItemState;
use crate::sources::pipeline::ScanStats;
use crate::sources::pipeline::SourceScanner;
use crate::sources::pipeline::SourceScannerReadResult;

verus! {

/// The text of an item as it is compared and stored: empty where there is none.
pub open spec fn content_text(item: Item) -> Seq<char> {
    match item.content {
        Some(c) => c@,
        None => Seq::empty(),
    }
}

/// Whether the reader compares the text of `item` with the stored one.
pub open spec fn compares_content(strategy: ItemCompareStrategy, item: Item) -> bool {
    item.skipped is None && strategy.compares_content()
}

/// The state of an item after the scanner answered `result` to the request
/// to read it, or `None` where the item leaves the scan. `item` is the item
/// as the scanner left it.
///
/// The scanner's `Found` keeps the state, its `Unchanged` makes a stored item
/// unchanged and drops a new one, and `Omit` or an error drops the item. A
/// state that is then still `Found` is settled by the text: changed where the
/// text is compared and differs from the stored one, unchanged otherwise.
pub open spec fn settled(
    strategy: ItemCompareStrategy,
    state: ScanItemState,
    item: Item,
    result: Option<SourceScannerReadResult>,
) -> Option<ScanItemState> {
    match result {
        None => None,
        Some(SourceScannerReadResult::Omit) => None,
        Some(SourceScannerReadResult::Unchanged) => match state.stored_id() {
            Some(id) => Some(ScanItemState::Unchanged { id }),
            None => None,
        },
        Some(SourceScannerReadResult::Found) => match state {
            ScanItemState::Found(found) => if compares_content(strategy, item) && found.content@
                != content_text(item) {
                Some(ScanItemState::Changed(found))
            } else {
                Some(ScanItemState::Unchanged { id: found.id })
            },
            _ => Some(state),
        },
    }
}

/// The states that a reader may give an item that entered it in state `before`.
pub open spec fn may_follow(before: ScanItemState, after: ScanItemState) -> bool {
    match before {
        ScanItemState::New => after is New,
        ScanItemState::Unchanged { id } => after == before,
        ScanItemState::Found(found) => after == ScanItemState::Changed(found) || after == (
        ScanItemState::Unchanged { id: found.id }),
        ScanItemState::Changed(found) => after == before || after == (ScanItemState::Unchanged {
            id: found.id,
        }),
    }
}

/// Whether `out` is what the reader makes of an item that came in state
/// `before`, for some answer of the scanner: its state is the one that the
/// answer settles, from the item as the scanner left it.
pub open spec fn settles(
    strategy: ItemCompareStrategy,
    before: ScanItemState,
    out: ScanItem,
) -> bool {
    exists|answer: Option<SourceScannerReadResult>| #[trigger]
        settled(strategy, before, out.item, answer) == Some(out.state)
}

/// Whatever the scanner answers, a settled state is one that may follow, and
/// it is never `Found`.
pub proof fn lemma_settled_may_follow(
    strategy: ItemCompareStrategy,
    state: ScanItemState,
    item: Item,
    result: Option<SourceScannerReadResult>,
)
    requires
        !(state is Unchanged),
    ensures
        settled(strategy, state, item, result) matches Some(after) ==> may_follow(state, after)
            && !(after is Found),
{
}

/// The stored row that a scanner is shown when it reads an item in `state`.
pub fn existing_row(state: &ScanItemState) -> (r: Option<&FoundItem>)
    ensures
        r == match *state {
            ScanItemState::Found(found) => Some(&found),
            ScanItemState::Changed(found) => Some(&found),
            _ => None,
        },
{
    match state {
        ScanItemState::New => None,
        ScanItemState::Found(found) => Some(found),
        ScanItemState::Changed(found) => Some(found),
        ScanItemState::Unchanged { .. } => None,
    }
}

/// Settles the state of an item that the scanner was asked to read.
/// `result` is `None` where the read failed.
pub fn settle(
    compare_strategy: ItemCompareStrategy,
    state: ScanItemState,
    item: &Item,
    result: Option<SourceScannerReadResult>,
) -> (r: Option<ScanItemState>)
    ensures
        r == settled(compare_strategy, state, *item, result),
{
    let state = match result {
        None => {
            return None;
        },
        Some(SourceScannerReadResult::Omit) => {
            return None;
        },
        Some(SourceScannerReadResult::Found) => state,
        Some(SourceScannerReadResult::Unchanged) => match state.item_id() {
            Some(id) => {
                return Some(ScanItemState::Unchanged { id });
            },
            None => {
                return None;
            },
        },
    };
    let compare_content = item.skipped.is_none() && compare_strategy.should_compare_content();
    match state {
        ScanItemState::Found(found) => {
            let differs = match &item.content {
                Some(c) => !(found.content == *c),
                None => {
                    assert(found.content@.len() == 0 <==> found.content@ =~= Seq::<char>::empty());
                    found.content.as_str().unicode_len() != 0
                },
            };
            if compare_content && differs {
                Some(ScanItemState::Changed(found))
            } else {
                Some(ScanItemState::Unchanged { id: found.id })
            }
        },
        other => Some(other),
    }
}

fn note_read_started(stats: &ScanStats) {
    stats.reading.fetch_add(1, Ordering::Relaxed);
}

fn note_read_finished(stats: &ScanStats) {
    stats.reading.fetch_sub(1, Ordering::Relaxed);
    stats.fetched.fetch_add(1, Ordering::Relaxed);
}

/// Takes one item through the reader. An unchanged item passes untouched and
/// unread. Any other is read by the scanner, once, and leaves in a state
/// that may follow the one it came in, never `Found`, or is dropped.
pub fn read_item<S: SourceScanner>(
    stats: &ScanStats,
    compare_strategy: ItemCompareStrategy,
    scanner: &S,
    scan_item: ScanItem,
) -> (r: Option<ScanItem>)
    ensures
        scan_item.state is Unchanged ==> r == Some(scan_item),
        r matches Some(out) ==> may_follow(scan_item.state, out.state),
        r matches Some(out) ==> !(scan_item.state is Unchanged) ==> !(out.state is Found),
        r matches Some(out) ==> settles(compare_strategy, scan_item.state, out),
{
    let ScanItem { state, item } = scan_item;
    if let ScanItemState::Unchanged { .. } = &state {
        proof {
            assert(settled(
                compare_strategy,
                state,
                item,
                Some(SourceScannerReadResult::Found),
            ) == Some(state));
        }
        return Some(ScanItem { state, item });
    }
    let mut item = item;
    note_read_started(stats);
    let read_result = scanner.read(existing_row(&state), compare_strategy, &mut item);
    note_read_finished(stats);
    let answer = match read_result {
        Ok(found) => Some(found),
        Err(_) => None,
    };
    proof {
        lemma_settled_may_follow(compare_strategy, state, item, answer);
    }
    match settle(compare_strategy, state, &item, answer) {
        Some(settled_state) => {
            proof {
                assert(settled(compare_strategy, state, item, answer) == Some(settled_state));
            }
            Some(ScanItem { state: settled_state, item })
        },
        None => None,
    }
}

/// `kept` picks the items of `batch` that `out` holds, in order: it is
/// strictly increasing, and the state of every item of `out` may follow the
/// state of the item it picks and is what some answer of the scanner
/// settles for it.
pub open spec fn reads_of(
    strategy: ItemCompareStrategy,
    batch: Seq<ScanItem>,
    out: Seq<ScanItem>,
    kept: Seq<int>,
) -> bool {
    &&& kept.len() == out.len()
    &&& forall|i: int| 0 <= i < kept.len() ==> 0 <= #[trigger] kept[i] < batch.len()
    &&& forall|i: int, j: int| 0 <= i < j < kept.len() ==> kept[i] < kept[j]
    &&& forall|i: int|
        0 <= i < out.len() ==> may_follow(batch[kept[i]].state, (#[trigger] out[i]).state)
    &&& forall|i: int|
        0 <= i < out.len() ==> settles(strategy, batch[kept[i]].state, #[trigger] out[i])
    &&& forall|i: int|
        0 <= i < out.len() && batch[kept[i]].state is Unchanged ==> #[trigger] out[i]
            == batch[kept[i]]
    &&& forall|k: int|
        0 <= k < batch.len() && (#[trigger] batch[k]).state is Unchanged ==> kept.contains(k)
}

/// Takes a batch through the reader, item by item. What leaves is a
/// selection of what came in, in the same order: every unchanged item,
/// untouched, and of the others those that the scanner could read, each in a
/// state that may follow its own and that is no longer `Found`.
pub fn read_items<S: SourceScanner>(
    stats: &ScanStats,
    compare_strategy: ItemCompareStrategy,
    scanner: &S,
    batch: Vec<ScanItem>,
) -> (r: Vec<ScanItem>)
    ensures
        exists|kept: Seq<int>| reads_of(compare_strategy, batch@, r@, kept),
        forall|i: int|
            0 <= i < r.len() ==> !((#[trigger] r[i]).state is Found) || exists|k: int|
                0 <= k < batch.len() && batch[k].state is Unchanged && batch[k] == r[i],
{
    let mut out: Vec<ScanItem> = Vec::new();
    let ghost all = batch@;
    let ghost mut kept: Seq<int> = Seq::empty();
    for scan_item in it: batch
        invariant
            it.seq() == all,
            kept.len() == out.len(),
            forall|i: int| 0 <= i < kept.len() ==> 0 <= #[trigger] kept[i] < it.index(),
            forall|i: int, j: int| 0 <= i < j < kept.len() ==> kept[i] < kept[j],
            forall|i: int|
                0 <= i < out.len() ==> may_follow(all[kept[i]].state, (#[trigger] out[i]).state),
            forall|i: int|
                0 <= i < out.len() ==> settles(
                    compare_strategy,
                    all[kept[i]].state,
                    #[trigger] out[i],
                ),
            forall|i: int|
                0 <= i < out.len() && all[kept[i]].state is Unchanged ==> #[trigger] out[i]
                    == all[kept[i]],
            forall|k: int|
                0 <= k < it.index() && (#[trigger] all[k]).state is Unchanged ==> kept.contains(k),
            forall|i: int|
                0 <= i < out.len() ==> !((#[trigger] out[i]).state is Found)
                    || all[kept[i]].state is Unchanged,
    {
        let ghost at = it.index() as int;
        let ghost before = kept;
        match read_item(stats, compare_strategy, scanner, scan_item) {
            Some(done) => {
                out.push(done);
                proof {
                    kept = kept.push(at);
                    assert forall|k: int|
                        0 <= k < at + 1 && (#[trigger] all[k]).state is Unchanged implies kept.contains(
                        k,
                    ) by {
                        if k < at {
                            let w = choose|w: int| 0 <= w < before.len() && before[w] == k;
                            assert(kept[w] == k);
                        } else {
                            assert(kept[kept.len() - 1] == k);
                        }
                    }
                }
            },
            None => {},
        }
    }
    proof {
        assert(reads_of(compare_strategy, all, out@, kept));
        assert forall|i: int| 0 <= i < out.len() implies !((#[trigger] out[i]).state is Found)
            || exists|k: int|
            0 <= k < all.len() && all[k].state is Unchanged && all[k] == out[i] by {
            if out[i].state is Found {
                assert(all[kept[i]].state is Unchanged && all[kept[i]] == out[i]);
            }
        }
    }
    out
}

} // verus!
