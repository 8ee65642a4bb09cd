//! The reconciler: joins the items that a scanner found against what the
//! store holds of them, and classifies each.

use vstd::prelude::*;
use crate::Item;
use crate::sources::ItemCompareStrategy;
use crate::sources::pipeline::FoundItem;
use crate::sources::pipeline::ScanItem;
use crate::sources::pipeline::ScanItemState;

verus! {

/// One stored row that the lookup of a batch brought back, under its key.
#[derive(Debug, Clone, PartialEq, Eq)]
pub struct ExistingRow {
    pub external_id: String,
    pub found: FoundItem,
}

/// The outcome of the first comparison of an item with its stored row.
#[derive(Debug, Clone, Copy, PartialEq, Eq, Structural)]
pub enum Verdict {
    /// Needs to be embedded again.
    Changed,
    /// Neither read nor embedded; only stamped with the scan's version.
    Unchanged,
    /// Exists; its content decides.
    Found,
}

/// Whether the modification times agree: known only where the strategy
/// compares them and both the item and the row have one.
pub open spec fn time_match(
    strategy: ItemCompareStrategy,
    mtime: Option<i64>,
    stored: Option<i64>,
) -> Option<bool> {
    if strategy.compares_mtime() && mtime is Some && stored is Some {
        Some(mtime->0 == stored->0)
    } else {
        None
    }
}

/// Whether the item is embedded again whatever the comparison says.
pub open spec fn forced(strategy: ItemCompareStrategy, has_embedding: bool) -> bool {
    strategy == ItemCompareStrategy::Force || !has_embedding
}

/// Whether equal modification times alone settle that nothing changed.
pub open spec fn mtime_sufficient(strategy: ItemCompareStrategy) -> bool {
    strategy == ItemCompareStrategy::MTime
}

/// The decision table of the reconciler.
pub open spec fn verdict(force: bool, time_match: Option<bool>, mtime_sufficient: bool) -> Verdict {
    if force {
        Verdict::Changed
    } else {
        match time_match {
            Some(false) => Verdict::Changed,
            Some(true) => if mtime_sufficient {
                Verdict::Unchanged
            } else {
                Verdict::Found
            },
            None => Verdict::Found,
        }
    }
}

/// The state of an item whose stored row is `found`.
pub open spec fn classified(
    strategy: ItemCompareStrategy,
    found: FoundItem,
    mtime: Option<i64>,
) -> ScanItemState {
    match verdict(
        forced(strategy, found.has_embedding),
        time_match(strategy, mtime, found.modified),
        mtime_sufficient(strategy),
    ) {
        Verdict::Changed => ScanItemState::Changed(found),
        Verdict::Unchanged => ScanItemState::Unchanged { id: found.id },
        Verdict::Found => ScanItemState::Found(found),
    }
}

/// Index of the first row stored under `key`, or the number of rows where
/// there is none.
pub open spec fn row_position(rows: Seq<ExistingRow>, key: Seq<char>) -> int
    decreases rows.len(),
{
    if rows.len() == 0 || rows[0].external_id@ == key {
        0
    } else {
        1 + row_position(rows.drop_first(), key)
    }
}

/// What the reconciler emits for one item, given the rows read back for its
/// batch: the item, new where no row is stored under its key, and else
/// classified against the first row stored under it.
pub open spec fn reconciled_item(
    strategy: ItemCompareStrategy,
    item: Item,
    rows: Seq<ExistingRow>,
) -> ScanItem {
    let at = row_position(rows, item.external_id@);
    if 0 <= at < rows.len() {
        ScanItem { state: classified(strategy, rows[at].found, item.metadata.mtime), item }
    } else {
        ScanItem { state: ScanItemState::New, item }
    }
}

/// What the reconciler emits for a batch, given the rows read back for it:
/// one scan item per item, in order. Every item is held against the rows on
/// its own, so that items of one key are classified alike.
pub open spec fn reconciled(
    strategy: ItemCompareStrategy,
    batch: Seq<Item>,
    rows: Seq<ExistingRow>,
) -> Seq<ScanItem> {
    Seq::new(batch.len(), |i: int| reconciled_item(strategy, batch[i], rows))
}

pub proof fn lemma_row_position_is(rows: Seq<ExistingRow>, key: Seq<char>, n: int)
    requires
        0 <= n <= rows.len(),
        forall|i: int| 0 <= i < n ==> (#[trigger] rows[i]).external_id@ != key,
        n < rows.len() ==> rows[n].external_id@ == key,
    ensures
        row_position(rows, key) == n,
    decreases rows.len(),
{
    if n > 0 {
        let rest = rows.drop_first();
        assert(rows[0].external_id@ != key);
        assert forall|i: int| 0 <= i < n - 1 implies (#[trigger] rest[i]).external_id@ != key by {
            assert(rest[i] == rows[i + 1]);
        }
        if n < rows.len() {
            assert(rest[n - 1] == rows[n]);
        }
        lemma_row_position_is(rest, key, n - 1);
    }
}

/// Whether a row is stored under `key`.
pub open spec fn has_row(rows: Seq<ExistingRow>, key: Seq<char>) -> bool {
    exists|j: int| 0 <= j < rows.len() && (#[trigger] rows[j]).external_id@ == key
}

/// The reconciler emits exactly one scan item per item, which carries that
/// item. The item is new exactly where no row is stored under its key, and
/// else its state is what the decision table gives for the first row stored
/// under its key, whatever else is in the batch.
pub proof fn lemma_reconciled_one_per_item(
    strategy: ItemCompareStrategy,
    batch: Seq<Item>,
    rows: Seq<ExistingRow>,
)
    ensures
        reconciled(strategy, batch, rows).len() == batch.len(),
        forall|i: int|
            0 <= i < batch.len() ==> (#[trigger] reconciled(strategy, batch, rows)[i]).item
                == batch[i],
        forall|i: int|
            0 <= i < batch.len() ==> ((#[trigger] reconciled(strategy, batch, rows)[i]).state is New
                <==> !has_row(rows, batch[i].external_id@)),
        forall|i: int|
            0 <= i < batch.len() && has_row(rows, batch[i].external_id@) ==> {
                let at = row_position(rows, batch[i].external_id@);
                &&& 0 <= at < rows.len()
                &&& rows[at].external_id@ == batch[i].external_id@
                &&& (#[trigger] reconciled(strategy, batch, rows)[i]).state == classified(
                    strategy,
                    rows[at].found,
                    batch[i].metadata.mtime,
                )
            },
{
    assert forall|i: int| 0 <= i < batch.len() implies {
        let out = #[trigger] reconciled(strategy, batch, rows)[i];
        let at = row_position(rows, batch[i].external_id@);
        &&& out.state is New <==> !has_row(rows, batch[i].external_id@)
        &&& has_row(rows, batch[i].external_id@) ==> 0 <= at < rows.len()
            && rows[at].external_id@ == batch[i].external_id@ && out.state == classified(
            strategy,
            rows[at].found,
            batch[i].metadata.mtime,
        )
    } by {
        lemma_row_position_found(rows, batch[i].external_id@);
    }
}

pub proof fn lemma_row_position_found(rows: Seq<ExistingRow>, key: Seq<char>)
    ensures
        0 <= row_position(rows, key) <= rows.len(),
        row_position(rows, key) < rows.len() ==> rows[row_position(rows, key)].external_id@
            == key,
        forall|i: int|
            0 <= i < row_position(rows, key) ==> (#[trigger] rows[i]).external_id@ != key,
    decreases rows.len(),
{
    if !(rows.len() == 0 || rows[0].external_id@ == key) {
        let rest = rows.drop_first();
        lemma_row_position_found(rest, key);
        assert forall|i: int| 0 <= i < row_position(rows, key) implies (
        #[trigger] rows[i]).external_id@ != key by {
            if i > 0 {
                assert(rows[i] == rest[i - 1]);
            }
        }
        if row_position(rows, key) < rows.len() {
            assert(rows[row_position(rows, key)] == rest[row_position(rest, key)]);
        }
    }
}

/// The decision table: forced items are changed; otherwise differing times
/// mean changed, equal times mean unchanged where the time suffices and
/// found where it does not, and unknown times mean found.
pub fn decide(force: bool, time_match: Option<bool>, mtime_sufficient: bool) -> (r: Verdict)
    ensures
        r == verdict(force, time_match, mtime_sufficient),
        force ==> r == Verdict::Changed,
        !force && time_match == Some(false) ==> r == Verdict::Changed,
        !force && time_match == Some(true) && mtime_sufficient ==> r == Verdict::Unchanged,
        !force && time_match == Some(true) && !mtime_sufficient ==> r == Verdict::Found,
        !force && time_match is None ==> r == Verdict::Found,
{
    match (force, time_match, mtime_sufficient) {
        (true, _, _) => Verdict::Changed,
        (false, Some(false), _) => Verdict::Changed,
        (false, Some(true), true) => Verdict::Unchanged,
        (false, Some(true), false) => Verdict::Found,
        (false, None, _) => Verdict::Found,
    }
}

/// Classifies an item with modification time `mtime` against its stored row.
pub fn classify(strategy: ItemCompareStrategy, found: FoundItem, mtime: Option<i64>) -> (r:
    ScanItemState)
    ensures
        r == classified(strategy, found, mtime),
{
    let same_time = match (mtime, found.modified) {
        (Some(a), Some(b)) => if strategy.should_compare_mtime() {
            Some(a == b)
        } else {
            None
        },
        _ => None,
    };
    let force = strategy == ItemCompareStrategy::Force || !found.has_embedding;
    match decide(force, same_time, strategy == ItemCompareStrategy::MTime) {
        Verdict::Changed => ScanItemState::Changed(found),
        Verdict::Unchanged => ScanItemState::Unchanged { id: found.id },
        Verdict::Found => ScanItemState::Found(found),
    }
}

/// Index of the first row stored under `key`, if there is one.
fn find_row(rows: &Vec<ExistingRow>, key: &String) -> (r: Option<usize>)
    ensures
        match r {
            Some(at) => at == row_position(rows@, key@) && at < rows.len(),
            None => row_position(rows@, key@) == rows.len(),
        },
{
    let mut i: usize = 0;
    while i < rows.len()
        invariant
            i <= rows.len(),
            forall|k: int| 0 <= k < i ==> (#[trigger] rows@[k]).external_id@ != key@,
        decreases rows.len() - i,
    {
        if rows[i].external_id == *key {
            proof {
                lemma_row_position_is(rows@, key@, i as int);
            }
            return Some(i);
        }
        i = i + 1;
    }
    proof {
        lemma_row_position_is(rows@, key@, i as int);
    }
    None
}

/// A copy of a stored row.
fn copy_found(found: &FoundItem) -> (r: FoundItem)
    ensures
        r == *found,
{
    FoundItem {
        id: found.id,
        hash: found.hash.clone(),
        content: found.content.clone(),
        modified: found.modified,
        last_accessed: found.last_accessed,
        skipped: found.skipped,
        has_embedding: found.has_embedding,
    }
}

/// Classifies every item of a batch against the rows that the store holds
/// under the batch's keys.
pub fn match_to_existing_items(
    compare_strategy: ItemCompareStrategy,
    batch: Vec<Item>,
    found: Vec<ExistingRow>,
) -> (r: Vec<ScanItem>)
    ensures
        r@ == reconciled(compare_strategy, batch@, found@),
{
    let mut out: Vec<ScanItem> = Vec::new();
    let ghost all = batch@;
    for item in it: batch
        invariant
            it.seq() == all,
            out@.len() == it.index(),
            forall|k: int|
                0 <= k < out@.len() ==> #[trigger] out@[k] == reconciled_item(
                    compare_strategy,
                    all[k],
                    found@,
                ),
    {
        let state = match find_row(&found, &item.external_id) {
            Some(at) => classify(compare_strategy, copy_found(&found[at].found), item.metadata.mtime),
            None => ScanItemState::New,
        };
        out.push(ScanItem { state, item });
    }
    proof {
        assert(out@ =~= reconciled(compare_strategy, all, found@));
    }
    out
}

} // verus!
