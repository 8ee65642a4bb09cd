//! The data that flows between the stages of a scan, and the counting
//! channel end through which batches leave a stage.

use vstd::prelude::*;
use std::sync::atomic::AtomicU64;
use std::sync::atomic::Ordering;
use crate::Item;
use crate::SkipReason;
use crate::sources::ItemCompareStrategy;

verus! {

/// What a scanner reports after trying to read an item.
#[derive(Debug, Clone, Copy, PartialEq, Eq, Structural)]
pub enum SourceScannerReadResult {
    /// Found the data.
    Found,
    /// Found the data, and the scanner itself determined that it is unchanged
    /// since the last scan, for instance from HTTP caching headers.
    Unchanged,
    /// The item showed up in the scan but could not be read.
    Omit,
}

/// What the store already holds of an item.
#[derive(Debug, Clone, PartialEq, Eq)]
pub struct FoundItem {
    pub id: i64,
    pub hash: String,
    /// The stored text; empty where the strategy does not compare content.
    pub content: String,
    pub modified: Option<i64>,
    pub last_accessed: Option<i64>,
    pub skipped: Option<SkipReason>,
    /// Whether an embedding exists under the model that the scan runs with.
    pub has_embedding: bool,
}

/// How far the scan has classified an item.
#[derive(Debug, Clone, PartialEq, Eq)]
pub enum ScanItemState {
    /// We're seeing this item for the first time.
    New,
    /// This item has not changed since the last index.
    Unchanged { id: i64 },
    /// The item exists, and we haven't determined yet if it changed or not.
    Found(FoundItem),
    /// The item exists, and it has changed since last time: it will be
    /// encoded again.
    Changed(FoundItem),
}

impl ScanItemState {
    /// The identity of the stored row this state refers to.
    pub open spec fn stored_id(&self) -> Option<i64> {
        match *self {
            ScanItemState::New => None,
            ScanItemState::Unchanged { id } => Some(id),
            ScanItemState::Found(found) => Some(found.id),
            ScanItemState::Changed(found) => Some(found.id),
        }
    }

    #[verifier::when_used_as_spec(stored_id)]
    pub fn item_id(&self) -> (r: Option<i64>)
        ensures
            r == self.stored_id(),
    {
        match self {
            ScanItemState::New => None,
            ScanItemState::Unchanged { id } => Some(*id),
            ScanItemState::Found(item) => Some(item.id),
            ScanItemState::Changed(item) => Some(item.id),
        }
    }
}

/// An item on its way through the pipeline.
#[derive(Debug, Clone, PartialEq, Eq)]
pub struct ScanItem {
    pub state: ScanItemState,
    pub item: Item,
}

/// Largest number of documents handed to the model in one call.
pub const EMBEDDING_BATCH_SIZE: usize = 64;

/// Counters that progress observers read while a scan runs.
pub struct ScanStats {
    pub scanned: AtomicU64,
    pub encoded: AtomicU64,
    pub fetched: AtomicU64,
    pub added: AtomicU64,
    pub changed: AtomicU64,
    pub unchanged: AtomicU64,
    pub reading: AtomicU64,
    pub embedding: AtomicU64,
}

impl Default for ScanStats {
    fn default() -> Self {
        ScanStats {
            scanned: AtomicU64::new(0),
            encoded: AtomicU64::new(0),
            fetched: AtomicU64::new(0),
            added: AtomicU64::new(0),
            changed: AtomicU64::new(0),
            unchanged: AtomicU64::new(0),
            reading: AtomicU64::new(0),
            embedding: AtomicU64::new(0),
        }
    }
}

/// A source of items of one kind. `read` and `reprocess` fill in the item
/// they are handed and say what they found; what they find depends on the
/// world outside, so nothing is promised of it here.
pub trait SourceScanner {
    /// Scan the source and send out batches of found items.
    fn scan<'a>(&self, output: CountingVecSender<'a, Item>) -> Result<(), String>;

    /// Read the full content of a single item.
    fn read(
        &self,
        existing: Option<&FoundItem>,
        compare_strategy: ItemCompareStrategy,
        item: &mut Item,
    ) -> Result<SourceScannerReadResult, String>;

    /// The version of the extraction this scanner performs.
    fn latest_process_version(&self) -> i32;

    /// Derive the item's content again from what is stored of it.
    fn reprocess(&self, item: &mut Item) -> Result<SourceScannerReadResult, String>;
}

#[verifier::external_type_specification]
#[verifier::external_body]
#[verifier::reject_recursive_types(T)]
pub struct ExSender<T>(flume::Sender<T>);

/// `flume::Sender::send`: hands `batch` to the channel, waiting while a
/// bounded channel is full. It fails only when every receiver is gone, and
/// then gives the very batch back.
#[verifier::external_body]
fn channel_send<T>(tx: &flume::Sender<Vec<T>>, batch: Vec<T>) -> (r: Result<(), Vec<T>>)
    ensures
        r matches Err(back) ==> back == batch,
{
    tx.send(batch).map_err(|e| e.into_inner())
}

/// `flume::Sender::clone`: another sending end of the same channel.
#[verifier::external_body]
fn channel_clone<T>(tx: &flume::Sender<Vec<T>>) -> flume::Sender<Vec<T>> {
    tx.clone()
}

/// A batch that could not be delivered because the receiving side is gone.
#[derive(Debug, Clone, PartialEq, Eq)]
pub struct Undelivered<T> {
    pub batch: Vec<T>,
}

/// A length as a count for the observers.
pub(crate) fn count_of(n: usize) -> (r: u64)
    ensures
        r == n,
{
    n as u64
}

/// The sending end of a channel of batches that adds the length of every
/// batch it is given to a shared counter.
#[verifier::reject_recursive_types(T)]
pub struct CountingVecSender<'a, T> {
    pub(crate) tx: flume::Sender<Vec<T>>,
    pub(crate) count: &'a AtomicU64,
    pub(crate) delivered: Ghost<Seq<Seq<T>>>,
}

impl<'a, T> CountingVecSender<'a, T> {
    /// The batches that the channel has accepted from this end, oldest first.
    pub closed spec fn delivered(&self) -> Seq<Seq<T>> {
        self.delivered@
    }

    pub fn new(count: &'a AtomicU64, tx: flume::Sender<Vec<T>>) -> (r: Self)
        ensures
            r.delivered() == Seq::<Seq<T>>::empty(),
    {
        CountingVecSender { tx, count, delivered: Ghost(Seq::empty()) }
    }

    /// A second end of the same channel and counter, which has delivered
    /// nothing yet.
    pub fn clone(&self) -> (r: Self)
        ensures
            r.delivered() == Seq::<Seq<T>>::empty(),
    {
        CountingVecSender {
            tx: channel_clone(&self.tx),
            count: self.count,
            delivered: Ghost(Seq::empty()),
        }
    }

    /// Adds the batch's length to the counter, then sends the batch. Either
    /// the channel takes it, and it is the newest delivered batch, or the
    /// receiving side is gone and the batch comes back untouched.
    pub fn send(&mut self, batch: Vec<T>) -> (r: Result<(), Undelivered<T>>)
        ensures
            r is Ok ==> final(self).delivered() == old(self).delivered().push(batch@),
            r matches Err(e) ==> e.batch == batch && final(self).delivered() == old(
                self,
            ).delivered(),
    {
        let n = count_of(batch.len());
        self.count.fetch_add(n, Ordering::Relaxed);
        match channel_send(&self.tx, batch) {
            Ok(()) => {
                proof {
                    self.delivered@ = self.delivered@.push(batch@);
                }
                Ok(())
            },
            Err(back) => Err(Undelivered { batch: back }),
        }
    }
}

} // verus!
