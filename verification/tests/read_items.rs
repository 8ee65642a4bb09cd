use perceive::sources::pipeline::CountingVecSender;
use perceive::sources::pipeline::FoundItem;
use perceive::sources::pipeline::ScanItem;
use perceive::sources::pipeline::ScanItemState;
use perceive::sources::pipeline::ScanStats;
use perceive::sources::pipeline::SourceScanner;
use perceive::sources::pipeline::SourceScannerReadResult;
use perceive::sources::read_items::existing_row;
use perceive::sources::read_items::read_item;
use perceive::sources::read_items::read_items;
use perceive::sources::read_items::settle;
use perceive::sources::ItemCompareStrategy;
use perceive::Item;
use perceive::ItemMetadata;
use perceive::SkipReason;
use std::sync::atomic::Ordering;

fn reader_found(id: i64, content: &str) -> FoundItem {
    FoundItem {
        id,
        hash: String::new(),
        content: content.to_string(),
        modified: Some(1),
        last_accessed: None,
        skipped: None,
        has_embedding: true,
    }
}

fn reader_item(external_id: &str, content: Option<&str>) -> Item {
    Item {
        id: -1,
        source_id: 1,
        external_id: external_id.to_string(),
        hash: None,
        content: content.map(|c| c.to_string()),
        raw_content: None,
        process_version: 0,
        metadata: ItemMetadata {
            name: None,
            author: None,
            description: None,
            mtime: Some(1),
            atime: None,
        },
        skipped: None,
    }
}

/// Answers by the key of the item: the key names the answer.
struct ReaderScript;

impl SourceScanner for ReaderScript {
    fn scan<'a>(&self, _output: CountingVecSender<'a, Item>) -> Result<(), String> {
        Ok(())
    }

    fn read(
        &self,
        _existing: Option<&FoundItem>,
        _compare_strategy: ItemCompareStrategy,
        item: &mut Item,
    ) -> Result<SourceScannerReadResult, String> {
        match item.external_id.as_str() {
            "found" => {
                item.content = Some("hello there".to_string());
                Ok(SourceScannerReadResult::Found)
            }
            "same" => {
                item.content = Some("hello world".to_string());
                Ok(SourceScannerReadResult::Found)
            }
            "unchanged" => Ok(SourceScannerReadResult::Unchanged),
            "omit" => Ok(SourceScannerReadResult::Omit),
            _ => Err("cannot read".to_string()),
        }
    }

    fn latest_process_version(&self) -> i32 {
        0
    }

    fn reprocess(&self, _item: &mut Item) -> Result<SourceScannerReadResult, String> {
        Ok(SourceScannerReadResult::Unchanged)
    }
}

#[test]
fn a_scanner_sees_the_stored_row_of_found_and_changed_items() {
    let found = reader_found(1, "x");
    assert_eq!(existing_row(&ScanItemState::New), None);
    assert_eq!(existing_row(&ScanItemState::Unchanged { id: 1 }), None);
    assert_eq!(existing_row(&ScanItemState::Found(found.clone())), Some(&found));
    assert_eq!(existing_row(&ScanItemState::Changed(found.clone())), Some(&found));
}

#[test]
fn found_keeps_new_and_changed() {
    let item = reader_item("a", Some("text"));
    let strategy = ItemCompareStrategy::MTimeAndContent;
    let found = Some(SourceScannerReadResult::Found);
    assert_eq!(settle(strategy, ScanItemState::New, &item, found), Some(ScanItemState::New));
    assert_eq!(
        settle(strategy, ScanItemState::Changed(reader_found(1, "x")), &item, found),
        Some(ScanItemState::Changed(reader_found(1, "x")))
    );
}

#[test]
fn unchanged_from_the_scanner_needs_a_stored_row() {
    let item = reader_item("a", None);
    let strategy = ItemCompareStrategy::MTimeAndContent;
    let unchanged = Some(SourceScannerReadResult::Unchanged);
    assert_eq!(settle(strategy, ScanItemState::New, &item, unchanged), None);
    assert_eq!(
        settle(strategy, ScanItemState::Found(reader_found(4, "x")), &item, unchanged),
        Some(ScanItemState::Unchanged { id: 4 })
    );
    assert_eq!(
        settle(strategy, ScanItemState::Changed(reader_found(5, "x")), &item, unchanged),
        Some(ScanItemState::Unchanged { id: 5 })
    );
}

#[test]
fn omit_and_errors_drop_the_item() {
    let item = reader_item("a", None);
    let strategy = ItemCompareStrategy::MTimeAndContent;
    let state = ScanItemState::Found(reader_found(4, "x"));
    assert_eq!(settle(strategy, state.clone(), &item, Some(SourceScannerReadResult::Omit)), None);
    assert_eq!(settle(strategy, state, &item, None), None);
}

#[test]
fn content_settles_found_items() {
    let found = Some(SourceScannerReadResult::Found);
    let state = ScanItemState::Found(reader_found(4, "hello world"));
    let same = reader_item("a", Some("hello world"));
    let other = reader_item("a", Some("hello there"));

    for strategy in [ItemCompareStrategy::MTimeAndContent, ItemCompareStrategy::Content] {
        assert_eq!(
            settle(strategy, state.clone(), &same, found),
            Some(ScanItemState::Unchanged { id: 4 })
        );
        assert_eq!(
            settle(strategy, state.clone(), &other, found),
            Some(ScanItemState::Changed(reader_found(4, "hello world")))
        );
    }
    for strategy in [ItemCompareStrategy::MTime, ItemCompareStrategy::Force] {
        assert_eq!(
            settle(strategy, state.clone(), &other, found),
            Some(ScanItemState::Unchanged { id: 4 })
        );
    }
}

#[test]
fn missing_content_compares_as_empty() {
    let found = Some(SourceScannerReadResult::Found);
    let strategy = ItemCompareStrategy::Content;
    let none = reader_item("a", None);
    assert_eq!(
        settle(strategy, ScanItemState::Found(reader_found(4, "")), &none, found),
        Some(ScanItemState::Unchanged { id: 4 })
    );
    assert_eq!(
        settle(strategy, ScanItemState::Found(reader_found(4, "x")), &none, found),
        Some(ScanItemState::Changed(reader_found(4, "x")))
    );
}

#[test]
fn skipped_items_are_not_compared_by_content() {
    let mut item = reader_item("a", Some("other"));
    item.skipped = Some(SkipReason::NotFound);
    assert_eq!(
        settle(
            ItemCompareStrategy::MTimeAndContent,
            ScanItemState::Found(reader_found(4, "hello world")),
            &item,
            Some(SourceScannerReadResult::Found)
        ),
        Some(ScanItemState::Unchanged { id: 4 })
    );
}

#[test]
fn unchanged_items_pass_unread() {
    let stats = ScanStats::default();
    let scan_item =
        ScanItem { state: ScanItemState::Unchanged { id: 3 }, item: reader_item("fails", None) };
    let out = read_item(&stats, ItemCompareStrategy::MTime, &ReaderScript, scan_item.clone());
    assert_eq!(out, Some(scan_item));
    assert_eq!(stats.fetched.load(Ordering::Relaxed), 0);
}

#[test]
fn read_items_keeps_the_order_and_drops_what_cannot_be_read() {
    let stats = ScanStats::default();
    let batch = vec![
        ScanItem { state: ScanItemState::New, item: reader_item("found", None) },
        ScanItem { state: ScanItemState::New, item: reader_item("omit", None) },
        ScanItem {
            state: ScanItemState::Found(reader_found(2, "hello world")),
            item: reader_item("same", None),
        },
        ScanItem { state: ScanItemState::Unchanged { id: 3 }, item: reader_item("fails", None) },
        ScanItem { state: ScanItemState::New, item: reader_item("fails", None) },
        ScanItem {
            state: ScanItemState::Found(reader_found(5, "hello world")),
            item: reader_item("found", None),
        },
        ScanItem { state: ScanItemState::New, item: reader_item("unchanged", None) },
        ScanItem {
            state: ScanItemState::Changed(reader_found(7, "x")),
            item: reader_item("unchanged", None),
        },
    ];
    let out = read_items(&stats, ItemCompareStrategy::MTimeAndContent, &ReaderScript, batch);
    let states: Vec<ScanItemState> = out.iter().map(|s| s.state.clone()).collect();
    assert_eq!(
        states,
        vec![
            ScanItemState::New,
            ScanItemState::Unchanged { id: 2 },
            ScanItemState::Unchanged { id: 3 },
            ScanItemState::Changed(reader_found(5, "hello world")),
            ScanItemState::Unchanged { id: 7 },
        ]
    );
    assert_eq!(out[0].item.content.as_deref(), Some("hello there"));
    assert_eq!(stats.fetched.load(Ordering::Relaxed), 7);
    assert_eq!(stats.reading.load(Ordering::Relaxed), 0);
}
