//! The writer: turns every item that leaves the embedder into the one
//! statement that brings the store up to date with it, and states what those
//! statements do to the store.

use vstd::prelude::*;
use vstd::string::*;
use std::sync::atomic::Ordering;
use crate::Item;
use crate::search::serialize_embedding;
use crate::search::serialized;
use crate::sources::calculate_embeddings::Embedded;
use crate::sources::pipeline::ScanItem;
use crate::sources::pipeline::ScanItemState;
use crate::sources::pipeline::ScanStats;

verus! {

/// The columns of an item's row that a scan fills from the item.
#[derive(Debug, Clone, PartialEq, Eq)]
pub struct RowValues {
    pub hash: String,
    pub content: String,
    pub raw_content: Option<Vec<u8>>,
    pub process_version: i32,
    pub name: Option<String>,
    pub author: Option<String>,
    pub description: Option<String>,
    pub modified: Option<i64>,
    pub last_accessed: Option<i64>,
    /// The stored name of the reason for which the item is skipped.
    pub skipped: Option<String>,
}

/// The statement on the table of items that one scan item asks for.
#[derive(Debug, Clone, PartialEq, Eq)]
pub enum ItemWrite {
    /// Stamp the row of an unchanged item with the scan's version and the
    /// item's last access.
    Touch { id: i64, last_accessed: Option<i64> },
    /// Replace the columns of the row of a changed item.
    Update { id: i64, values: RowValues },
    /// Add the row of a new item.
    Insert { source_id: i64, external_id: String, values: RowValues },
}

/// Everything to write for one scan item: the statement on its row and,
/// where the item has a vector, the bytes to store under the item, the model
/// and the model's version.
#[derive(Debug, Clone, PartialEq, Eq)]
pub struct Write {
    /// The version of the scan, stamped on the row and on the vector.
    pub version: i64,
    pub item: ItemWrite,
    pub embedding: Option<Vec<u8>>,
}

/// How many rows a batch added, changed and left unchanged.
#[derive(Debug, Clone, Copy, PartialEq, Eq, Structural)]
pub struct WriteCounts {
    pub added: u64,
    pub changed: u64,
    pub unchanged: u64,
}

/// The characters of a text that may be missing; none where it is.
pub open spec fn text_or_empty(text: Option<String>) -> Seq<char> {
    match text {
        Some(t) => t@,
        None => Seq::empty(),
    }
}

/// The characters of a text that may be missing.
pub open spec fn opt_text(text: Option<String>) -> Option<Seq<char>> {
    match text {
        Some(t) => Some(t@),
        None => None,
    }
}

/// The bytes of a buffer that may be missing.
pub open spec fn opt_bytes(bytes: Option<Vec<u8>>) -> Option<Seq<u8>> {
    match bytes {
        Some(b) => Some(b@),
        None => None,
    }
}

/// A row of the table of items, column by column.
pub struct ItemRow {
    pub source_id: i64,
    pub external_id: Seq<char>,
    pub version: i64,
    pub hash: Seq<char>,
    pub content: Seq<char>,
    pub raw_content: Option<Seq<u8>>,
    pub process_version: i32,
    pub name: Option<Seq<char>>,
    pub author: Option<Seq<char>>,
    pub description: Option<Seq<char>>,
    pub modified: Option<i64>,
    pub last_accessed: Option<i64>,
    pub skipped: Option<Seq<char>>,
}

/// A row of the table of embeddings.
pub struct EmbeddingRow {
    /// The version of the scan that produced the vector.
    pub item_index_version: i64,
    pub embedding: Seq<u8>,
}

/// The key under which an embedding is stored, and under which there is at
/// most one.
pub struct EmbeddingKey {
    pub item_id: i64,
    pub model_id: u32,
    pub model_version: u32,
}

/// The two tables that a scan writes: items by identity, and embeddings by
/// item, model and model version.
pub struct Store {
    pub items: Map<i64, ItemRow>,
    pub embeddings: Map<EmbeddingKey, EmbeddingRow>,
}

/// The row that `values` make for an item of key `external_id` in source
/// `source_id`, stamped with `version`.
pub open spec fn row_of(source_id: i64, external_id: Seq<char>, version: i64, values: RowValues) -> ItemRow {
    ItemRow {
        source_id,
        external_id,
        version,
        hash: values.hash@,
        content: values.content@,
        raw_content: opt_bytes(values.raw_content),
        process_version: values.process_version,
        name: opt_text(values.name),
        author: opt_text(values.author),
        description: opt_text(values.description),
        modified: values.modified,
        last_accessed: values.last_accessed,
        skipped: opt_text(values.skipped),
    }
}

/// The identity of the row that a statement writes: the one it names, or
/// `new_id`, which the store gives to the row it adds.
pub open spec fn written_id(item: ItemWrite, new_id: i64) -> i64 {
    match item {
        ItemWrite::Touch { id, .. } => id,
        ItemWrite::Update { id, .. } => id,
        ItemWrite::Insert { .. } => new_id,
    }
}

/// The table of items after a statement. A statement that names a row which
/// is not there changes nothing.
pub open spec fn items_after(items: Map<i64, ItemRow>, version: i64, item: ItemWrite, new_id: i64) -> Map<
    i64,
    ItemRow,
> {
    match item {
        ItemWrite::Touch { id, last_accessed } => if items.contains_key(id) {
            items.insert(id, ItemRow { version, last_accessed, ..items[id] })
        } else {
            items
        },
        ItemWrite::Update { id, values } => if items.contains_key(id) {
            items.insert(id, row_of(items[id].source_id, items[id].external_id, version, values))
        } else {
            items
        },
        ItemWrite::Insert { source_id, external_id, values } => items.insert(
            new_id,
            row_of(source_id, external_id@, version, values),
        ),
    }
}

/// The store after one write under model `model_id` in version
/// `model_version`: the statement on the items, and then the vector, which
/// replaces the one stored under the same key.
pub open spec fn store_after(
    store: Store,
    model_id: u32,
    model_version: u32,
    write: Write,
    new_id: i64,
) -> Store {
    Store {
        items: items_after(store.items, write.version, write.item, new_id),
        embeddings: match write.embedding {
            Some(bytes) => store.embeddings.insert(
                EmbeddingKey {
                    item_id: written_id(write.item, new_id),
                    model_id,
                    model_version,
                },
                EmbeddingRow { item_index_version: write.version, embedding: bytes@ },
            ),
            None => store.embeddings,
        },
    }
}

/// Whether `values` are the columns of `item`: missing hash and content are
/// stored as empty text, and a skip reason under its name.
pub open spec fn values_of(values: RowValues, item: Item) -> bool {
    &&& values.hash@ == text_or_empty(item.hash)
    &&& values.content@ == text_or_empty(item.content)
    &&& values.raw_content == item.raw_content
    &&& values.process_version == item.process_version
    &&& values.name == item.metadata.name
    &&& values.author == item.metadata.author
    &&& values.description == item.metadata.description
    &&& values.modified == item.metadata.mtime
    &&& values.last_accessed == item.metadata.atime
    &&& opt_text(values.skipped) == match item.skipped {
        Some(reason) => Some(reason.name()),
        None => None,
    }
}

/// Whether `write` is what the writer does for `embedded` in a scan of
/// version `index_version`: an unchanged item is touched, a new one is
/// added, any other is updated under the identity of its stored row, and a
/// vector is stored as its bytes.
pub open spec fn writes(write: Write, index_version: i64, embedded: Embedded) -> bool {
    let item = embedded.item.item;
    &&& write.version == index_version
    &&& match embedded.item.state {
        ScanItemState::Unchanged { id } => write.item == (ItemWrite::Touch {
            id,
            last_accessed: item.metadata.atime,
        }),
        ScanItemState::Changed(found) => write.item matches ItemWrite::Update { id, values }
            && id == found.id && values_of(values, item),
        ScanItemState::Found(found) => write.item matches ItemWrite::Update { id, values }
            && id == found.id && values_of(values, item),
        ScanItemState::New => write.item matches ItemWrite::Insert {
            source_id,
            external_id,
            values,
        } && source_id == item.source_id && external_id == item.external_id && values_of(
            values,
            item,
        ),
    }
    &&& match embedded.embedding {
        Some(vector) => write.embedding is Some && write.embedding->0@ == serialized(vector@),
        None => write.embedding is None,
    }
}

/// The counts of one more write.
pub open spec fn counted(counts: WriteCounts, write: Write) -> WriteCounts {
    match write.item {
        ItemWrite::Touch { .. } => WriteCounts {
            unchanged: (counts.unchanged + 1) as u64,
            ..counts
        },
        ItemWrite::Update { .. } => WriteCounts { changed: (counts.changed + 1) as u64, ..counts },
        ItemWrite::Insert { .. } => WriteCounts { added: (counts.added + 1) as u64, ..counts },
    }
}

/// The counts of a batch of writes.
pub open spec fn counts_of(writes: Seq<Write>) -> WriteCounts
    decreases writes.len(),
{
    if writes.len() == 0 {
        WriteCounts { added: 0, changed: 0, unchanged: 0 }
    } else {
        counted(counts_of(writes.drop_last()), writes.last())
    }
}

/// Writing an unchanged item keeps what is stored of it: of its row only the
/// version and the last access may change, no other row changes, and no
/// embedding is written.
pub proof fn lemma_unchanged_keeps_row(
    store: Store,
    model_id: u32,
    model_version: u32,
    index_version: i64,
    scan_item: ScanItem,
    write: Write,
    new_id: i64,
)
    requires
        scan_item.state is Unchanged,
        writes(write, index_version, Embedded { item: scan_item, embedding: None }),
    ensures
        ({
            let after = store_after(store, model_id, model_version, write, new_id);
            let id = scan_item.state->id;
            &&& after.embeddings == store.embeddings
            &&& after.items.dom() == store.items.dom()
            &&& forall|other: i64|
                other != id && store.items.contains_key(other) ==> after.items[other]
                    == store.items[other]
            &&& store.items.contains_key(id) ==> after.items[id] == (ItemRow {
                version: index_version,
                last_accessed: scan_item.item.metadata.atime,
                ..store.items[id]
            })
            &&& store.items.contains_key(id) ==> {
                &&& after.items[id].content == store.items[id].content
                &&& after.items[id].hash == store.items[id].hash
                &&& after.items[id].process_version == store.items[id].process_version
            }
        }),
{
    let after = store_after(store, model_id, model_version, write, new_id);
    let id = scan_item.state->id;
    if store.items.contains_key(id) {
        assert(after.items.dom() =~= store.items.dom());
    }
}

/// Writing an item with its vector leaves exactly one embedding under the
/// item, the model and the model's version: the item's vector, as bytes,
/// stamped with the version of the scan. The item is the one whose row the
/// statement writes, and no embedding under another key changes.
pub proof fn lemma_vector_is_stored(
    store: Store,
    model_id: u32,
    model_version: u32,
    index_version: i64,
    embedded: Embedded,
    write: Write,
    new_id: i64,
)
    requires
        embedded.embedding is Some,
        writes(write, index_version, embedded),
    ensures
        ({
            let after = store_after(store, model_id, model_version, write, new_id);
            let key = EmbeddingKey {
                item_id: match embedded.item.state.stored_id() {
                    Some(id) => id,
                    None => new_id,
                },
                model_id,
                model_version,
            };
            &&& after.embeddings.contains_key(key)
            &&& after.embeddings[key].item_index_version == index_version
            &&& after.embeddings[key].embedding == serialized(embedded.embedding->0@)
            &&& forall|other: EmbeddingKey|
                other != key ==> (after.embeddings.contains_key(other)
                    <==> store.embeddings.contains_key(other))
            &&& forall|other: EmbeddingKey|
                other != key && store.embeddings.contains_key(other) ==> after.embeddings[other]
                    == store.embeddings[other]
        }),
{
}

fn text_column(text: Option<String>) -> (r: String)
    ensures
        r@ == text_or_empty(text),
{
    match text {
        Some(t) => t,
        None => String::new(),
    }
}

/// The columns that a scan fills from `item`, and the item's key.
fn columns(item: Item) -> (r: (i64, String, RowValues))
    ensures
        r.0 == item.source_id,
        r.1 == item.external_id,
        values_of(r.2, item),
{
    let Item {
        id: _,
        source_id,
        external_id,
        hash,
        content,
        raw_content,
        process_version,
        metadata,
        skipped,
    } = item;
    let skipped_name = match skipped {
        Some(reason) => Some(reason.to_string()),
        None => None,
    };
    let values = RowValues {
        hash: text_column(hash),
        content: text_column(content),
        raw_content,
        process_version,
        name: metadata.name,
        author: metadata.author,
        description: metadata.description,
        modified: metadata.mtime,
        last_accessed: metadata.atime,
        skipped: skipped_name,
    };
    (source_id, external_id, values)
}

/// What to write for one item that left the embedder.
pub fn plan_write(index_version: i64, embedded: Embedded) -> (r: Write)
    ensures
        writes(r, index_version, embedded),
{
    let Embedded { item: scan_item, embedding } = embedded;
    let ScanItem { state, item } = scan_item;
    let bytes = match embedding {
        Some(vector) => Some(serialize_embedding(vector.as_slice())),
        None => None,
    };
    let statement = match state {
        ScanItemState::Unchanged { id } => ItemWrite::Touch {
            id,
            last_accessed: item.metadata.atime,
        },
        ScanItemState::Changed(found) => {
            let (_, _, values) = columns(item);
            ItemWrite::Update { id: found.id, values }
        },
        ScanItemState::Found(found) => {
            let (_, _, values) = columns(item);
            ItemWrite::Update { id: found.id, values }
        },
        ScanItemState::New => {
            let (source_id, external_id, values) = columns(item);
            ItemWrite::Insert { source_id, external_id, values }
        },
    };
    Write { version: index_version, item: statement, embedding: bytes }
}

/// What to write, in one transaction, for a batch that left the embedder:
/// one write per item, in order, and the counts of the rows they add,
/// change and leave unchanged.
pub fn update_db(index_version: i64, batch: Vec<Embedded>) -> (r: (Vec<Write>, WriteCounts))
    ensures
        r.0@.len() == batch@.len(),
        forall|i: int| 0 <= i < batch@.len() ==> writes(#[trigger] r.0@[i], index_version, batch@[i]),
        r.1 == counts_of(r.0@),
{
    let mut out: Vec<Write> = Vec::new();
    let mut counts = WriteCounts { added: 0, changed: 0, unchanged: 0 };
    let ghost all = batch@;
    let total = batch.len();
    for embedded in it: batch
        invariant
            it.seq() == all,
            all.len() == total,
            out@.len() == it.index(),
            forall|i: int|
                0 <= i < it.index() ==> writes(#[trigger] out@[i], index_version, all[i]),
            counts == counts_of(out@),
            counts.added + counts.changed + counts.unchanged == out@.len(),
    {
        let write = plan_write(index_version, embedded);
        counts = match &write.item {
            ItemWrite::Touch { .. } => WriteCounts { unchanged: counts.unchanged + 1, ..counts },
            ItemWrite::Update { .. } => WriteCounts { changed: counts.changed + 1, ..counts },
            ItemWrite::Insert { .. } => WriteCounts { added: counts.added + 1, ..counts },
        };
        proof {
            assert(out@.push(write).drop_last() == out@);
        }
        out.push(write);
    }
    (out, counts)
}

/// Adds the counts of a committed batch to what the observers see.
pub fn record_counts(stats: &ScanStats, counts: WriteCounts) {
    stats.added.fetch_add(counts.added, Ordering::Relaxed);
    stats.changed.fetch_add(counts.changed, Ordering::Relaxed);
    stats.unchanged.fetch_add(counts.unchanged, Ordering::Relaxed);
}

} // verus!
