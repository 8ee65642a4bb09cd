use perceive::search::deserialize_embedding;
use perceive::sources::calculate_embeddings::Embedded;
use perceive::sources::pipeline::FoundItem;
use perceive::sources::pipeline::ScanItem;
use perceive::sources::pipeline::ScanItemState;
use perceive::sources::pipeline::ScanStats;
use perceive::sources::update_db::plan_write;
use perceive::sources::update_db::record_counts;
use perceive::sources::update_db::update_db;
use perceive::sources::update_db::ItemWrite;
use perceive::sources::update_db::RowValues;
use perceive::sources::update_db::Write;
use perceive::sources::update_db::WriteCounts;
use perceive::Item;
use perceive::ItemMetadata;
use perceive::SkipReason;
use std::sync::atomic::Ordering;

fn writer_item() -> Item {
    Item {
        id: -1,
        source_id: 4,
        external_id: "https://example.com/".to_string(),
        hash: Some("etag".to_string()),
        content: Some("text".to_string()),
        raw_content: Some(vec![1, 2, 3]),
        process_version: 1,
        metadata: ItemMetadata {
            name: Some("Name".to_string()),
            author: Some("Author".to_string()),
            description: Some("About".to_string()),
            mtime: Some(10),
            atime: Some(20),
        },
        skipped: None,
    }
}

fn writer_values() -> RowValues {
    RowValues {
        hash: "etag".to_string(),
        content: "text".to_string(),
        raw_content: Some(vec![1, 2, 3]),
        process_version: 1,
        name: Some("Name".to_string()),
        author: Some("Author".to_string()),
        description: Some("About".to_string()),
        modified: Some(10),
        last_accessed: Some(20),
        skipped: None,
    }
}

fn writer_found(id: i64) -> FoundItem {
    FoundItem {
        id,
        hash: String::new(),
        content: String::new(),
        modified: None,
        last_accessed: None,
        skipped: None,
        has_embedding: true,
    }
}

#[test]
fn an_unchanged_item_is_only_touched() {
    let embedded = Embedded {
        item: ScanItem { state: ScanItemState::Unchanged { id: 9 }, item: writer_item() },
        embedding: None,
    };
    assert_eq!(
        plan_write(5, embedded),
        Write {
            version: 5,
            item: ItemWrite::Touch { id: 9, last_accessed: Some(20) },
            embedding: None
        }
    );
}

#[test]
fn a_changed_item_is_updated_under_its_stored_identity() {
    let embedded = Embedded {
        item: ScanItem { state: ScanItemState::Changed(writer_found(9)), item: writer_item() },
        embedding: Some(vec![0x3f80_0000, 0xbf80_0000]),
    };
    let write = plan_write(5, embedded);
    assert_eq!(write.version, 5);
    assert_eq!(write.item, ItemWrite::Update { id: 9, values: writer_values() });
    assert_eq!(write.embedding, Some(vec![0, 0, 0x80, 0x3f, 0, 0, 0x80, 0xbf]));
}

#[test]
fn a_new_item_is_inserted() {
    let embedded = Embedded {
        item: ScanItem { state: ScanItemState::New, item: writer_item() },
        embedding: Some(vec![7]),
    };
    let write = plan_write(2, embedded);
    assert_eq!(
        write.item,
        ItemWrite::Insert {
            source_id: 4,
            external_id: "https://example.com/".to_string(),
            values: writer_values()
        }
    );
    assert_eq!(write.embedding, Some(vec![7, 0, 0, 0]));
}

#[test]
fn missing_hash_and_content_are_stored_empty_and_reasons_by_name() {
    let mut item = writer_item();
    item.hash = None;
    item.content = None;
    item.raw_content = None;
    item.skipped = Some(SkipReason::NotFound);
    let write = plan_write(
        1,
        Embedded { item: ScanItem { state: ScanItemState::New, item }, embedding: None },
    );
    match write.item {
        ItemWrite::Insert { values, .. } => {
            assert_eq!(values.hash, "");
            assert_eq!(values.content, "");
            assert_eq!(values.raw_content, None);
            assert_eq!(values.skipped, Some("not_found".to_string()));
        }
        other => panic!("unexpected write {:?}", other),
    }
    assert_eq!(write.embedding, None);
}

#[test]
fn a_batch_is_written_in_order_and_counted() {
    let batch = vec![
        Embedded {
            item: ScanItem { state: ScanItemState::New, item: writer_item() },
            embedding: Some(vec![1]),
        },
        Embedded {
            item: ScanItem { state: ScanItemState::Unchanged { id: 2 }, item: writer_item() },
            embedding: None,
        },
        Embedded {
            item: ScanItem { state: ScanItemState::Changed(writer_found(3)), item: writer_item() },
            embedding: Some(vec![3]),
        },
        Embedded {
            item: ScanItem { state: ScanItemState::Unchanged { id: 4 }, item: writer_item() },
            embedding: None,
        },
        Embedded {
            item: ScanItem { state: ScanItemState::Found(writer_found(5)), item: writer_item() },
            embedding: None,
        },
    ];
    let (writes, counts) = update_db(8, batch);
    assert_eq!(writes.len(), 5);
    assert!(matches!(writes[0].item, ItemWrite::Insert { .. }));
    assert!(matches!(writes[1].item, ItemWrite::Touch { id: 2, .. }));
    assert!(matches!(writes[2].item, ItemWrite::Update { id: 3, .. }));
    assert!(matches!(writes[3].item, ItemWrite::Touch { id: 4, .. }));
    assert!(matches!(writes[4].item, ItemWrite::Update { id: 5, .. }));
    assert!(writes.iter().all(|w| w.version == 8));
    assert_eq!(counts, WriteCounts { added: 1, changed: 2, unchanged: 2 });
}

#[test]
fn an_empty_batch_writes_nothing() {
    let (writes, counts) = update_db(8, vec![]);
    assert!(writes.is_empty());
    assert_eq!(counts, WriteCounts { added: 0, changed: 0, unchanged: 0 });
}

#[test]
fn counts_reach_the_observers() {
    let stats = ScanStats::default();
    record_counts(&stats, WriteCounts { added: 1, changed: 2, unchanged: 3 });
    record_counts(&stats, WriteCounts { added: 10, changed: 20, unchanged: 30 });
    assert_eq!(stats.added.load(Ordering::Relaxed), 11);
    assert_eq!(stats.changed.load(Ordering::Relaxed), 22);
    assert_eq!(stats.unchanged.load(Ordering::Relaxed), 33);
}

#[test]
fn stored_vectors_read_back_as_they_were() {
    let vector: Vec<f32> = vec![0.25, -1.5, 3.0e-7];
    let bits: Vec<u32> = vector.iter().map(|v| v.to_bits()).collect();
    let write = plan_write(
        1,
        Embedded {
            item: ScanItem { state: ScanItemState::New, item: writer_item() },
            embedding: Some(bits),
        },
    );
    let bytes = write.embedding.unwrap();
    let expected: Vec<u8> = vector.iter().flat_map(|v| v.to_le_bytes()).collect();
    assert_eq!(bytes, expected);
    let back: Vec<f32> = deserialize_embedding(&bytes).into_iter().map(f32::from_bits).collect();
    assert_eq!(back, vector);
}
