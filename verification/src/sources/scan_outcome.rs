//! What a scan makes of one item, from the reconciler to the store, put
//! together from what each stage says of itself.
//!
//! Three courses are followed to their end: an item that the store does not
//! know, an item that has not changed, and an item whose content has
//! changed.

use vstd::prelude::*;
use crate::Item;
use crate::search::serialized;
use crate::sources::calculate_embeddings::document_of;
use crate::sources::calculate_embeddings::wants_embedding;
use crate::sources::calculate_embeddings::Embedded;
use crate::sources::calculate_embeddings::Embedding;
use crate::sources::match_existing_items::has_row;
use crate::sources::match_existing_items::lemma_row_position_found;
use crate::sources::match_existing_items::reconciled_item;
use crate::sources::match_existing_items::row_position;
use crate::sources::match_existing_items::ExistingRow;
use crate::sources::pipeline::ScanItem;
use crate::sources::pipeline::ScanItemState;
use crate::sources::pipeline::SourceScannerReadResult;
use crate::sources::read_items::content_text;
use crate::sources::read_items::settled;
use crate::sources::update_db::counts_of;
use crate::sources::update_db::opt_bytes;
use crate::sources::update_db::opt_text;
use crate::sources::update_db::store_after;
use crate::sources::update_db::text_or_empty;
use crate::sources::update_db::writes;
use crate::sources::update_db::EmbeddingKey;
use crate::sources::update_db::EmbeddingRow;
use crate::sources::update_db::ItemRow;
use crate::sources::update_db::Store;
use crate::sources::update_db::Write;
use crate::sources::update_db::WriteCounts;
use crate::sources::ItemCompareStrategy;

verus! {

/// What the reader hands on for a scan item: an unchanged item as it is,
/// unread; of any other the item as the scanner left it, `read`, in the
/// state that the scanner's answer settles, or nothing where that is none.
pub open spec fn read_through(
    strategy: ItemCompareStrategy,
    scan_item: ScanItem,
    read: Item,
    answer: Option<SourceScannerReadResult>,
) -> Option<ScanItem> {
    if scan_item.state is Unchanged {
        Some(scan_item)
    } else {
        match settled(strategy, scan_item.state, read, answer) {
            Some(state) => Some(ScanItem { state, item: read }),
            None => None,
        }
    }
}

/// What reconciler and reader together hand on for an item of a batch for
/// which `rows` were read back.
pub open spec fn scanned(
    strategy: ItemCompareStrategy,
    item: Item,
    rows: Seq<ExistingRow>,
    read: Item,
    answer: Option<SourceScannerReadResult>,
) -> Option<ScanItem> {
    read_through(strategy, reconciled_item(strategy, item, rows), read, answer)
}

/// The row that an item makes in source `source_id` under key
/// `external_id`, stamped with `version`.
pub open spec fn row_from(source_id: i64, external_id: Seq<char>, version: i64, item: Item) -> ItemRow {
    ItemRow {
        source_id,
        external_id,
        version,
        hash: text_or_empty(item.hash),
        content: text_or_empty(item.content),
        raw_content: opt_bytes(item.raw_content),
        process_version: item.process_version,
        name: opt_text(item.metadata.name),
        author: opt_text(item.metadata.author),
        description: opt_text(item.metadata.description),
        modified: item.metadata.mtime,
        last_accessed: item.metadata.atime,
        skipped: match item.skipped {
            Some(reason) => Some(reason.name()),
            None => None,
        },
    }
}

/// The key of the embedding of item `item_id` under a model.
pub open spec fn key_of(item_id: i64, model_id: u32, model_version: u32) -> EmbeddingKey {
    EmbeddingKey { item_id, model_id, model_version }
}

/// An item that the store does not know: it is new, stays new where the
/// scanner finds it, and is handed to the model where it is not skipped and
/// has a document. Written with its vector, it adds one row, that of the
/// item as it was read, under the identity that the store gives it, and one
/// embedding under that identity and the model, stamped with the version of
/// the scan and four bytes long for each number of the vector. No other row
/// and no other embedding changes, and the batch counts one row added.
pub proof fn lemma_unknown_item_is_added(
    strategy: ItemCompareStrategy,
    item: Item,
    rows: Seq<ExistingRow>,
    read: Item,
    vector: Embedding,
    store: Store,
    model_id: u32,
    model_version: u32,
    index_version: i64,
    write: Write,
    new_id: i64,
)
    requires
        !has_row(rows, item.external_id@),
        read.skipped is None,
        document_of(read) is Some,
        writes(
            write,
            index_version,
            Embedded { item: ScanItem { state: ScanItemState::New, item: read }, embedding: Some(vector) },
        ),
        !store.items.contains_key(new_id),
    ensures
        reconciled_item(strategy, item, rows) == (ScanItem { state: ScanItemState::New, item }),
        scanned(strategy, item, rows, read, Some(SourceScannerReadResult::Found)) == Some(
            ScanItem { state: ScanItemState::New, item: read },
        ),
        wants_embedding(ScanItem { state: ScanItemState::New, item: read }),
        ({
            let after = store_after(store, model_id, model_version, write, new_id);
            let key = key_of(new_id, model_id, model_version);
            &&& after.items == store.items.insert(
                new_id,
                row_from(read.source_id, read.external_id@, index_version, read),
            )
            &&& after.embeddings == store.embeddings.insert(
                key,
                EmbeddingRow { item_index_version: index_version, embedding: serialized(vector@) },
            )
            &&& after.embeddings[key].embedding.len() == 4 * vector@.len()
        }),
        counts_of(seq![write]) == (WriteCounts { added: 1, changed: 0, unchanged: 0 }),
{
    lemma_row_position_found(rows, item.external_id@);
    let at = row_position(rows, item.external_id@);
    if at < rows.len() {
        assert(rows[at].external_id@ == item.external_id@);
    }
    let after = store_after(store, model_id, model_version, write, new_id);
    assert(after.items =~= store.items.insert(
        new_id,
        row_from(read.source_id, read.external_id@, index_version, read),
    ));
    assert(seq![write].drop_last() == Seq::<Write>::empty());
    assert(counts_of(seq![write].drop_last()) == (WriteCounts { added: 0, changed: 0, unchanged: 0 }));
}

/// Whether the row stored under the key of `item` settles, by the times
/// alone, that the item has not changed: the strategy is the one for which
/// the time suffices, an embedding is stored, and the times are known and
/// equal.
pub open spec fn unchanged_by_time(
    strategy: ItemCompareStrategy,
    item: Item,
    rows: Seq<ExistingRow>,
) -> bool {
    let found = rows[row_position(rows, item.external_id@)].found;
    &&& has_row(rows, item.external_id@)
    &&& strategy == ItemCompareStrategy::MTime
    &&& found.has_embedding
    &&& item.metadata.mtime is Some
    &&& item.metadata.mtime == found.modified
}

/// Whether the row stored under the key of `item` leaves it to the content
/// whether the item has changed: the strategy compares content, an
/// embedding is stored, and the times, where the strategy compares them,
/// are equal or not both known.
pub open spec fn left_to_content(
    strategy: ItemCompareStrategy,
    item: Item,
    rows: Seq<ExistingRow>,
) -> bool {
    let found = rows[row_position(rows, item.external_id@)].found;
    &&& has_row(rows, item.external_id@)
    &&& found.has_embedding
    &&& strategy == ItemCompareStrategy::Content || (strategy
        == ItemCompareStrategy::MTimeAndContent && (item.metadata.mtime is None
        || found.modified is None || item.metadata.mtime == found.modified))
}

/// What is stored after an unchanged item was written: no embedding has
/// changed, no row has come or gone, and of the item's row only the version
/// and the last access have changed.
pub open spec fn only_touched(
    store: Store,
    after: Store,
    id: i64,
    index_version: i64,
    last_accessed: Option<i64>,
) -> bool {
    &&& after.embeddings == store.embeddings
    &&& after.items.dom() == store.items.dom()
    &&& forall|other: i64|
        other != id && store.items.contains_key(other) ==> after.items[other]
            == store.items[other]
    &&& store.items.contains_key(id) ==> after.items[id] == (ItemRow {
        version: index_version,
        last_accessed,
        ..store.items[id]
    })
}

/// An item whose time is the stored one, under the strategy for which the
/// time suffices: it is unchanged, passes the reader unread, whatever the
/// file or page now holds, and gets no vector. Written, it changes nothing
/// but the version and the last access of its row, and the batch counts one
/// row unchanged.
pub proof fn lemma_same_time_is_unchanged(
    strategy: ItemCompareStrategy,
    item: Item,
    rows: Seq<ExistingRow>,
    read: Item,
    answer: Option<SourceScannerReadResult>,
    store: Store,
    model_id: u32,
    model_version: u32,
    index_version: i64,
    write: Write,
    new_id: i64,
)
    requires
        unchanged_by_time(strategy, item, rows),
        writes(
            write,
            index_version,
            Embedded { item: reconciled_item(strategy, item, rows), embedding: None },
        ),
    ensures
        ({
            let id = rows[row_position(rows, item.external_id@)].found.id;
            let kept = ScanItem { state: ScanItemState::Unchanged { id }, item };
            &&& reconciled_item(strategy, item, rows) == kept
            &&& scanned(strategy, item, rows, read, answer) == Some(kept)
            &&& !wants_embedding(kept)
            &&& only_touched(
                store,
                store_after(store, model_id, model_version, write, new_id),
                id,
                index_version,
                item.metadata.atime,
            )
        }),
        counts_of(seq![write]) == (WriteCounts { added: 0, changed: 0, unchanged: 1 }),
{
    lemma_row_position_found(rows, item.external_id@);
    let id = rows[row_position(rows, item.external_id@)].found.id;
    let after = store_after(store, model_id, model_version, write, new_id);
    if store.items.contains_key(id) {
        assert(after.items.dom() =~= store.items.dom());
    }
    assert(seq![write].drop_last() == Seq::<Write>::empty());
    assert(counts_of(seq![write].drop_last()) == (WriteCounts { added: 0, changed: 0, unchanged: 0 }));
}

/// An item that is left to its content and is read with the content that
/// is stored: the reader makes it unchanged, and it gets no vector.
/// Written, it changes nothing but the version and the last access of its
/// row, and the batch counts one row unchanged.
pub proof fn lemma_same_content_is_unchanged(
    strategy: ItemCompareStrategy,
    item: Item,
    rows: Seq<ExistingRow>,
    read: Item,
    store: Store,
    model_id: u32,
    model_version: u32,
    index_version: i64,
    write: Write,
    new_id: i64,
)
    requires
        left_to_content(strategy, item, rows),
        content_text(read) == rows[row_position(rows, item.external_id@)].found.content@,
        ({
            let id = rows[row_position(rows, item.external_id@)].found.id;
            writes(
                write,
                index_version,
                Embedded {
                    item: ScanItem { state: ScanItemState::Unchanged { id }, item: read },
                    embedding: None,
                },
            )
        }),
    ensures
        ({
            let found = rows[row_position(rows, item.external_id@)].found;
            let kept = ScanItem { state: ScanItemState::Unchanged { id: found.id }, item: read };
            &&& reconciled_item(strategy, item, rows) == (ScanItem {
                state: ScanItemState::Found(found),
                item,
            })
            &&& scanned(strategy, item, rows, read, Some(SourceScannerReadResult::Found)) == Some(
                kept,
            )
            &&& !wants_embedding(kept)
            &&& only_touched(
                store,
                store_after(store, model_id, model_version, write, new_id),
                found.id,
                index_version,
                read.metadata.atime,
            )
        }),
        counts_of(seq![write]) == (WriteCounts { added: 0, changed: 0, unchanged: 1 }),
{
    lemma_row_position_found(rows, item.external_id@);
    let id = rows[row_position(rows, item.external_id@)].found.id;
    let after = store_after(store, model_id, model_version, write, new_id);
    if store.items.contains_key(id) {
        assert(after.items.dom() =~= store.items.dom());
    }
    assert(seq![write].drop_last() == Seq::<Write>::empty());
    assert(counts_of(seq![write].drop_last()) == (WriteCounts { added: 0, changed: 0, unchanged: 0 }));
}

/// An item that is left to its content and is read, not skipped, with
/// another content than is stored: the reader makes it changed, and it is
/// handed to the model where it has a document. Written with its vector, it
/// replaces the columns of its row by those of the item as it was read,
/// under the source and the key that the row had, and leaves one embedding
/// under the item and the model: the new vector, stamped with the version
/// of the scan. No row comes or goes, no other row and no other embedding
/// changes, and the batch counts one row changed.
pub proof fn lemma_other_content_is_changed(
    strategy: ItemCompareStrategy,
    item: Item,
    rows: Seq<ExistingRow>,
    read: Item,
    vector: Embedding,
    store: Store,
    model_id: u32,
    model_version: u32,
    index_version: i64,
    write: Write,
    new_id: i64,
)
    requires
        left_to_content(strategy, item, rows),
        read.skipped is None,
        content_text(read) != rows[row_position(rows, item.external_id@)].found.content@,
        document_of(read) is Some,
        store.items.contains_key(rows[row_position(rows, item.external_id@)].found.id),
        ({
            let found = rows[row_position(rows, item.external_id@)].found;
            writes(
                write,
                index_version,
                Embedded {
                    item: ScanItem { state: ScanItemState::Changed(found), item: read },
                    embedding: Some(vector),
                },
            )
        }),
    ensures
        ({
            let found = rows[row_position(rows, item.external_id@)].found;
            let changed = ScanItem { state: ScanItemState::Changed(found), item: read };
            let after = store_after(store, model_id, model_version, write, new_id);
            let key = key_of(found.id, model_id, model_version);
            &&& reconciled_item(strategy, item, rows) == (ScanItem {
                state: ScanItemState::Found(found),
                item,
            })
            &&& scanned(strategy, item, rows, read, Some(SourceScannerReadResult::Found)) == Some(
                changed,
            )
            &&& wants_embedding(changed)
            &&& after.items == store.items.insert(
                found.id,
                row_from(
                    store.items[found.id].source_id,
                    store.items[found.id].external_id,
                    index_version,
                    read,
                ),
            )
            &&& after.embeddings == store.embeddings.insert(
                key,
                EmbeddingRow { item_index_version: index_version, embedding: serialized(vector@) },
            )
        }),
        counts_of(seq![write]) == (WriteCounts { added: 0, changed: 1, unchanged: 0 }),
{
    lemma_row_position_found(rows, item.external_id@);
    let found = rows[row_position(rows, item.external_id@)].found;
    let after = store_after(store, model_id, model_version, write, new_id);
    assert(after.items =~= store.items.insert(
        found.id,
        row_from(
            store.items[found.id].source_id,
            store.items[found.id].external_id,
            index_version,
            read,
        ),
    ));
    assert(seq![write].drop_last() == Seq::<Write>::empty());
    assert(counts_of(seq![write].drop_last()) == (WriteCounts { added: 0, changed: 0, unchanged: 0 }));
}

/// A file without front matter, as the walk found it and as it was read:
/// it is not skipped, its document is its trimmed text, and its row holds
/// the text as content, no raw content, and the process version of files.
pub proof fn lemma_plain_file_row(item: Item, text: String, version: i64)
    requires
        item.metadata.name is None,
        item.metadata.description is None,
        item.raw_content is None,
        item.skipped is None,
        item.process_version == 0,
    ensures
        ({
            let read = Item { content: Some(text), ..item };
            let row = row_from(read.source_id, read.external_id@, version, read);
            &&& read.skipped is None
            &&& document_of(read) == Some(crate::text::trimmed(text@))
            &&& row.content == text@
            &&& row.raw_content is None
            &&& row.process_version == 0
            &&& row.version == version
            &&& row.external_id == item.external_id@
        }),
{
}

} // verus!
