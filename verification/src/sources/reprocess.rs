//! The reprocessor: derives the content of stored items again where the
//! extraction has moved on, and hands what changed to the embedder.

use vstd::prelude::*;
use std::sync::atomic::Ordering;
use crate::Item;
use crate::sources::pipeline::FoundItem;
use crate::sources::pipeline::ScanItem;
use crate::sources::pipeline::ScanItemState;
use crate::sources::pipeline::ScanStats;
use crate::sources::pipeline::SourceScanner;
use crate::sources::pipeline::SourceScannerReadResult;

verus! {

/// Whether an item is due for reprocessing: its content was produced by an
/// earlier version of the extraction than the scanner's latest.
pub open spec fn is_outdated(item: Item, latest: i32) -> bool {
    item.process_version < latest
}

pub fn needs_reprocessing(item: &Item, latest: i32) -> (r: bool)
    ensures
        r == is_outdated(*item, latest),
{
    item.process_version < latest
}

/// Whether `found` stands for the stored row of an item of which nothing
/// but its identity is known.
pub open spec fn bare_row(found: FoundItem, id: i64) -> bool {
    &&& found.id == id
    &&& found.hash@.len() == 0
    &&& found.content@.len() == 0
    &&& found.modified is None
    &&& found.last_accessed is None
    &&& found.skipped is None
    &&& !found.has_embedding
}

/// Whether a scan item is a reprocessed item: changed, with a stored row of
/// which only the item's own identity is known.
pub open spec fn is_reprocessed(out: ScanItem) -> bool {
    out.state matches ScanItemState::Changed(found) && bare_row(found, out.item.id)
}

/// What becomes of a stored item once the scanner has answered the request
/// to reprocess it: an item that the scanner found anew goes on as changed,
/// under its own identity; any other leaves.
pub fn reprocessed(item: Item, result: SourceScannerReadResult) -> (r: Option<ScanItem>)
    ensures
        match result {
            SourceScannerReadResult::Found => r matches Some(out) && (out.item == item
                && is_reprocessed(out)),
            _ => r is None,
        },
{
    match result {
        SourceScannerReadResult::Found => {
            let found = FoundItem {
                id: item.id,
                hash: String::new(),
                content: String::new(),
                modified: None,
                last_accessed: None,
                skipped: None,
                has_embedding: false,
            };
            Some(ScanItem { state: ScanItemState::Changed(found), item })
        },
        _ => None,
    }
}

fn note_reprocessing(stats: &ScanStats) {
    stats.reading.fetch_add(1, Ordering::Relaxed);
}

fn note_reprocessed(stats: &ScanStats) {
    stats.fetched.fetch_add(1, Ordering::Relaxed);
}

/// How a batch ended in which the scanner failed: with the items that it
/// had found anew before, which still go on, and with the scanner's error.
#[derive(Debug, Clone, PartialEq, Eq)]
pub struct ReprocessFailure {
    pub done: Vec<ScanItem>,
    pub message: String,
}

/// Has the scanner reprocess the items of a batch, one after the other.
/// No more leaves than came in, and what leaves is changed and names as its
/// stored row the identity that the item has once the scanner is done with
/// it. The first error of the scanner ends the batch and is handed on,
/// together with what the items before it gave; a batch without items asks
/// the scanner nothing, and so succeeds with nothing.
pub fn reprocess<S: SourceScanner>(stats: &ScanStats, scanner: &S, batch: Vec<Item>) -> (r: Result<
    Vec<ScanItem>,
    ReprocessFailure,
>)
    ensures
        batch@.len() == 0 ==> r is Ok,
        r matches Ok(out) ==> {
            &&& out@.len() <= batch@.len()
            &&& forall|i: int| 0 <= i < out@.len() ==> is_reprocessed(#[trigger] out@[i])
        },
        r matches Err(failure) ==> {
            &&& failure.done@.len() < batch@.len()
            &&& forall|i: int|
                0 <= i < failure.done@.len() ==> is_reprocessed(#[trigger] failure.done@[i])
        },
{
    let mut out: Vec<ScanItem> = Vec::new();
    let ghost all = batch@;
    for item in it: batch
        invariant
            it.seq() == all,
            all == batch@,
            out@.len() <= it.index(),
            forall|i: int| 0 <= i < out@.len() ==> is_reprocessed(#[trigger] out@[i]),
    {
        let mut item = item;
        note_reprocessing(stats);
        match scanner.reprocess(&mut item) {
            Err(message) => {
                return Err(ReprocessFailure { done: out, message });
            },
            Ok(result) => {
                match reprocessed(item, result) {
                    Some(done) => {
                        note_reprocessed(stats);
                        out.push(done);
                    },
                    None => {},
                }
            },
        }
    }
    Ok(out)
}

} // verus!
