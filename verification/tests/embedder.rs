use perceive::sources::calculate_embeddings::compose_document;
use perceive::sources::calculate_embeddings::note_encoding_finished;
use perceive::sources::calculate_embeddings::note_encoding_started;
use perceive::sources::calculate_embeddings::EmbedAction;
use perceive::sources::calculate_embeddings::Embedded;
use perceive::sources::calculate_embeddings::Embedder;
use perceive::sources::pipeline::FoundItem;
use perceive::sources::pipeline::ScanItem;
use perceive::sources::pipeline::ScanItemState;
use perceive::sources::pipeline::ScanStats;
use perceive::sources::pipeline::EMBEDDING_BATCH_SIZE;
use perceive::Item;
use perceive::ItemMetadata;
use perceive::SkipReason;
use std::sync::atomic::Ordering;

fn embedder_item(name: Option<&str>, description: Option<&str>, content: Option<&str>) -> Item {
    Item {
        id: -1,
        source_id: 1,
        external_id: "a".to_string(),
        hash: None,
        content: content.map(|c| c.to_string()),
        raw_content: None,
        process_version: 0,
        metadata: ItemMetadata {
            name: name.map(|c| c.to_string()),
            author: None,
            description: description.map(|c| c.to_string()),
            mtime: None,
            atime: None,
        },
        skipped: None,
    }
}

fn embedder_found(id: i64) -> FoundItem {
    FoundItem {
        id,
        hash: String::new(),
        content: String::new(),
        modified: None,
        last_accessed: None,
        skipped: None,
        has_embedding: true,
    }
}

fn embedder_new(content: &str) -> ScanItem {
    ScanItem { state: ScanItemState::New, item: embedder_item(None, None, Some(content)) }
}

#[test]
fn the_batch_size_is_sixty_four() {
    assert_eq!(EMBEDDING_BATCH_SIZE, 64);
}

#[test]
fn a_document_without_name_and_description_is_the_trimmed_content() {
    assert_eq!(
        compose_document(&embedder_item(None, None, Some("  hello world\n"))),
        Some("hello world".to_string())
    );
    assert_eq!(compose_document(&embedder_item(None, None, Some("   "))), Some(String::new()));
    assert_eq!(compose_document(&embedder_item(None, None, None)), None);
}

#[test]
fn a_document_joins_name_description_and_content() {
    assert_eq!(
        compose_document(&embedder_item(Some("Title"), Some("About"), Some("Body text"))),
        Some("Title\nAbout\nBody text".to_string())
    );
    assert_eq!(
        compose_document(&embedder_item(Some("Title"), None, Some("Body text"))),
        Some("Title\nBody text".to_string())
    );
    assert_eq!(
        compose_document(&embedder_item(None, Some("About"), None)),
        Some("About".to_string())
    );
}

#[test]
fn blank_parts_are_left_out_and_the_others_stay_untrimmed() {
    assert_eq!(
        compose_document(&embedder_item(Some("  "), Some(" About "), Some("\n"))),
        Some(" About ".to_string())
    );
    assert_eq!(
        compose_document(&embedder_item(Some(""), None, Some(" Body\n"))),
        Some(" Body\n".to_string())
    );
    assert_eq!(compose_document(&embedder_item(Some(" "), Some(""), Some("\t"))), None);
    assert_eq!(compose_document(&embedder_item(Some(" "), None, None)), None);
}

#[test]
fn items_that_want_no_vector_are_forwarded() {
    let mut embedder = Embedder::new(2);
    let unchanged =
        ScanItem { state: ScanItemState::Unchanged { id: 1 }, item: embedder_item(None, None, Some("x")) };
    let found = ScanItem {
        state: ScanItemState::Found(embedder_found(2)),
        item: embedder_item(None, None, Some("x")),
    };
    let mut skipped = embedder_new("x");
    skipped.item.skipped = Some(SkipReason::NoContent);
    let empty = ScanItem { state: ScanItemState::New, item: embedder_item(None, None, None) };

    for scan_item in [unchanged, found, skipped, empty] {
        assert_eq!(
            embedder.accept(scan_item.clone()),
            EmbedAction::Forward(Embedded { item: scan_item, embedding: None })
        );
    }
    assert!(!embedder.has_waiting());
    assert!(embedder.documents().is_empty());
}

#[test]
fn a_full_batch_asks_for_the_model() {
    let mut embedder = Embedder::new(2);
    let first = embedder_new(" one ");
    let second = ScanItem {
        state: ScanItemState::Changed(embedder_found(7)),
        item: embedder_item(Some("Two"), None, Some("second")),
    };
    assert_eq!(embedder.accept(first.clone()), EmbedAction::Wait);
    assert!(embedder.has_waiting());
    assert_eq!(embedder.accept(second.clone()), EmbedAction::Encode);
    assert_eq!(embedder.documents(), &vec!["one".to_string(), "Two\nsecond".to_string()]);

    let out = embedder.complete(vec![vec![1, 2], vec![3, 4]]);
    assert_eq!(
        out,
        vec![
            Embedded { item: first, embedding: Some(vec![1, 2]) },
            Embedded { item: second, embedding: Some(vec![3, 4]) },
        ]
    );
    assert!(!embedder.has_waiting());
    assert!(embedder.documents().is_empty());
}

#[test]
fn the_last_batch_may_be_short() {
    let mut embedder = Embedder::new(64);
    let only = embedder_new("only");
    assert_eq!(embedder.accept(only.clone()), EmbedAction::Wait);
    assert!(embedder.has_waiting());
    let out = embedder.complete(vec![vec![9]]);
    assert_eq!(out, vec![Embedded { item: only, embedding: Some(vec![9]) }]);
}

#[test]
fn vectors_are_paired_first_with_first() {
    let mut embedder = Embedder::new(8);
    let items: Vec<ScanItem> = (0..3).map(|i| embedder_new(&format!("doc {}", i))).collect();
    for item in items.iter() {
        embedder.accept(item.clone());
    }
    let out = embedder.complete(vec![vec![0], vec![1]]);
    assert_eq!(out.len(), 2);
    assert_eq!(out[0], Embedded { item: items[0].clone(), embedding: Some(vec![0]) });
    assert_eq!(out[1], Embedded { item: items[1].clone(), embedding: Some(vec![1]) });

    for item in items.iter() {
        embedder.accept(item.clone());
    }
    let out = embedder.complete(vec![vec![0], vec![1], vec![2], vec![3]]);
    assert_eq!(out.len(), 3);
    assert_eq!(out[2], Embedded { item: items[2].clone(), embedding: Some(vec![2]) });
}

#[test]
fn observers_see_the_documents_with_the_model() {
    let stats = ScanStats::default();
    note_encoding_started(&stats, 5);
    assert_eq!(stats.embedding.load(Ordering::Relaxed), 5);
    note_encoding_finished(&stats, 5, 4);
    assert_eq!(stats.embedding.load(Ordering::Relaxed), 0);
    assert_eq!(stats.encoded.load(Ordering::Relaxed), 4);
}
