use perceive::db::deserialize_item_row;
use perceive::db::source_from_row;
use perceive::db::DbError;
use perceive::db::ItemColumns;
use perceive::db::SourceColumns;
use perceive::sources::pipeline::CountingVecSender;
use perceive::sources::pipeline::FoundItem;
use perceive::sources::pipeline::ScanItemState;
use perceive::sources::pipeline::ScanStats;
use perceive::sources::pipeline::SourceScanner;
use perceive::sources::pipeline::SourceScannerReadResult;
use perceive::sources::reprocess::needs_reprocessing;
use perceive::sources::reprocess::reprocess;
use perceive::sources::reprocess::reprocessed;
use perceive::sources::scan::scan_result;
use perceive::sources::scan::Stage;
use perceive::sources::scan::StageEnd;
use perceive::sources::scan::EMBEDDED_CAPACITY;
use perceive::sources::scan::MATCHED_CAPACITY;
use perceive::sources::scan::READ_PARALLELISM;
use perceive::sources::FsSourceConfig;
use perceive::sources::ItemCompareStrategy;
use perceive::sources::SourceConfig;
use perceive::sources::SourceStatus;
use perceive::time_tracker::TimeTracker;
use perceive::Item;
use perceive::ItemMetadata;
use perceive::SkipReason;
use std::sync::atomic::Ordering;

fn stages_columns() -> ItemColumns {
    ItemColumns {
        id: 4,
        source_id: 2,
        external_id: "https://example.com/".to_string(),
        hash: Some("etag".to_string()),
        content: Some("text".to_string()),
        raw_content: Some(vec![1, 2]),
        process_version: 1,
        name: Some("Name".to_string()),
        author: None,
        description: Some("About".to_string()),
        modified: Some(10),
        last_accessed: Some(20),
        skipped: Some("redirected".to_string()),
    }
}

fn stages_item(id: i64, process_version: i32) -> Item {
    Item {
        id,
        source_id: 2,
        external_id: format!("item {}", id),
        hash: None,
        content: Some("old".to_string()),
        raw_content: None,
        process_version,
        metadata: ItemMetadata { name: None, author: None, description: None, mtime: None, atime: None },
        skipped: None,
    }
}

fn stages_end(stage: Stage, failure: Option<&str>) -> StageEnd {
    StageEnd { stage, failure: failure.map(|f| f.to_string()) }
}

/// Finds every item with an even identity anew, and fails on identity 13.
struct StagesScanner;

impl SourceScanner for StagesScanner {
    fn scan<'a>(&self, _output: CountingVecSender<'a, Item>) -> Result<(), String> {
        Ok(())
    }

    fn read(
        &self,
        _existing: Option<&FoundItem>,
        _compare_strategy: ItemCompareStrategy,
        _item: &mut Item,
    ) -> Result<SourceScannerReadResult, String> {
        Ok(SourceScannerReadResult::Omit)
    }

    fn latest_process_version(&self) -> i32 {
        1
    }

    fn reprocess(&self, item: &mut Item) -> Result<SourceScannerReadResult, String> {
        if item.id == 13 {
            Err("unlucky".to_string())
        } else if item.id % 2 == 0 {
            item.content = Some("new".to_string());
            item.process_version = 1;
            Ok(SourceScannerReadResult::Found)
        } else {
            Ok(SourceScannerReadResult::Unchanged)
        }
    }
}

#[test]
fn a_row_reads_as_an_item() {
    let item = deserialize_item_row(stages_columns()).unwrap();
    assert_eq!(
        item,
        Item {
            id: 4,
            source_id: 2,
            external_id: "https://example.com/".to_string(),
            hash: Some("etag".to_string()),
            content: Some("text".to_string()),
            raw_content: Some(vec![1, 2]),
            process_version: 1,
            metadata: ItemMetadata {
                name: Some("Name".to_string()),
                author: None,
                description: Some("About".to_string()),
                mtime: Some(10),
                atime: Some(20),
            },
            skipped: Some(SkipReason::Redirected),
        }
    );
}

#[test]
fn rows_with_unknown_reasons_or_times_are_turned_down() {
    let mut row = stages_columns();
    row.skipped = Some("Redirected".to_string());
    assert_eq!(deserialize_item_row(row), Err(DbError::UnknownSkipReason));
    let mut row = stages_columns();
    row.skipped = None;
    row.modified = Some(253402300800);
    assert_eq!(deserialize_item_row(row), Err(DbError::TimeOutOfRange));
    let mut row = stages_columns();
    row.last_accessed = Some(-377705116801);
    row.skipped = Some("bad".to_string());
    assert_eq!(deserialize_item_row(row), Err(DbError::TimeOutOfRange));
    let mut row = stages_columns();
    row.skipped = None;
    row.modified = None;
    row.last_accessed = None;
    assert_eq!(deserialize_item_row(row).unwrap().skipped, None);
}

#[test]
fn a_source_reads_from_its_row() {
    let row = SourceColumns {
        id: 3,
        name: "docs".to_string(),
        location: "/tmp/d".to_string(),
        compare_strategy: "m_time".to_string(),
        last_indexed: 500,
        index_version: 9,
    };
    let config = SourceConfig::Fs(FsSourceConfig { globs: vec![] });
    let status = SourceStatus::Ready { scanned: 1, duration: 0 };
    let source = source_from_row(row.clone(), config.clone(), status.clone(), 1_000).unwrap();
    assert_eq!(source.id, 3);
    assert_eq!(source.name, "docs");
    assert_eq!(source.location, "/tmp/d");
    assert_eq!(source.compare_strategy, ItemCompareStrategy::MTime);
    assert_eq!(source.last_indexed, 500);
    assert_eq!(source.index_version, 9);
    assert_eq!(source.config, config);
    assert_eq!(source.status, status);

    let mut late = row.clone();
    late.last_indexed = i64::MAX;
    assert_eq!(source_from_row(late, config.clone(), status.clone(), 1_000).unwrap().last_indexed, 1_000);

    let mut unknown = row;
    unknown.compare_strategy = "sometimes".to_string();
    assert_eq!(source_from_row(unknown, config, status, 1_000), Err(DbError::UnknownCompareStrategy));
}

#[test]
fn items_of_an_earlier_extraction_are_reprocessed() {
    assert!(needs_reprocessing(&stages_item(1, 0), 1));
    assert!(!needs_reprocessing(&stages_item(1, 1), 1));
    assert!(!needs_reprocessing(&stages_item(1, 2), 1));
}

#[test]
fn what_is_found_anew_goes_on_as_changed() {
    let out = reprocessed(stages_item(6, 1), SourceScannerReadResult::Found).unwrap();
    assert_eq!(out.item, stages_item(6, 1));
    assert_eq!(out.state.item_id(), Some(6));
    assert!(matches!(out.state, ScanItemState::Changed(_)));
    assert_eq!(reprocessed(stages_item(6, 1), SourceScannerReadResult::Unchanged), None);
    assert_eq!(reprocessed(stages_item(6, 1), SourceScannerReadResult::Omit), None);
}

#[test]
fn a_batch_is_reprocessed_in_order() {
    let stats = ScanStats::default();
    let batch = vec![stages_item(1, 0), stages_item(2, 0), stages_item(3, 0), stages_item(4, 0)];
    let out = reprocess(&stats, &StagesScanner, batch).unwrap();
    let ids: Vec<Option<i64>> = out.iter().map(|s| s.state.item_id()).collect();
    assert_eq!(ids, vec![Some(2), Some(4)]);
    assert_eq!(out[0].item.content, Some("new".to_string()));
    assert_eq!(stats.reading.load(Ordering::Relaxed), 4);
    assert_eq!(stats.fetched.load(Ordering::Relaxed), 2);

    let failing = vec![stages_item(2, 0), stages_item(13, 0), stages_item(4, 0)];
    let failure = reprocess(&stats, &StagesScanner, failing).unwrap_err();
    assert_eq!(failure.message, "unlucky");
    assert_eq!(failure.done.len(), 1);
    assert_eq!(failure.done[0].state.item_id(), Some(2));
    assert_eq!(failure.done[0].item.content, Some("new".to_string()));
}

#[test]
fn a_batch_without_items_reprocesses_to_nothing() {
    let stats = ScanStats::default();
    assert_eq!(reprocess(&stats, &StagesScanner, vec![]), Ok(vec![]));
    assert_eq!(stats.reading.load(Ordering::Relaxed), 0);
    assert_eq!(stats.fetched.load(Ordering::Relaxed), 0);
}

#[test]
fn the_pipeline_has_its_sizes() {
    assert_eq!(READ_PARALLELISM, 8);
    assert_eq!(MATCHED_CAPACITY, 256);
    assert_eq!(EMBEDDED_CAPACITY, 8);
}

#[test]
fn stages_are_waited_for_against_the_flow() {
    assert_eq!(Stage::Writer.join_position(), 0);
    assert_eq!(Stage::Embedder.join_position(), 1);
    assert_eq!(Stage::Reader.join_position(), 2);
    assert_eq!(Stage::Reconciler.join_position(), 3);
    assert_eq!(Stage::Scanner.join_position(), 4);
    assert_eq!(Stage::Writer.name(), "db_writer");
    assert_eq!(Stage::Embedder.name(), "encoding task");
    assert_eq!(Stage::Reader.name(), "read_items");
    assert_eq!(Stage::Reconciler.name(), "db_lookup");
    assert_eq!(Stage::Scanner.name(), "scanner");
}

#[test]
fn a_scan_succeeds_only_if_every_stage_does() {
    assert_eq!(scan_result(vec![]), Ok(()));
    assert_eq!(
        scan_result(vec![
            stages_end(Stage::Scanner, None),
            stages_end(Stage::Reader, None),
            stages_end(Stage::Writer, None),
        ]),
        Ok(())
    );
    assert_eq!(
        scan_result(vec![
            stages_end(Stage::Scanner, Some("walk failed")),
            stages_end(Stage::Reader, None),
            stages_end(Stage::Reader, Some("first reader")),
            stages_end(Stage::Reader, Some("second reader")),
            stages_end(Stage::Writer, None),
        ]),
        Err(stages_end(Stage::Reader, Some("first reader")))
    );
    assert_eq!(
        scan_result(vec![
            stages_end(Stage::Scanner, Some("walk failed")),
            stages_end(Stage::Writer, Some("disk full")),
            stages_end(Stage::Embedder, Some("model panicked")),
        ]),
        Err(stages_end(Stage::Writer, Some("disk full")))
    );
}

#[test]
fn shared_time_counts_once() {
    let mut tracker = TimeTracker::new();
    assert_eq!(tracker.total(), 0);
    tracker.begin(1_000);
    tracker.begin(1_500);
    tracker.end(1_700);
    assert_eq!(tracker.total(), 0);
    tracker.end(3_000);
    assert_eq!(tracker.total(), 2_000);
    tracker.begin(10_000);
    tracker.end(10_250);
    assert_eq!(tracker.total(), 2_250);
    tracker.begin(50);
    tracker.end(40);
    assert_eq!(tracker.total(), 2_250);
    assert_eq!(TimeTracker::default().total(), 0);
}

#[test]
fn the_total_time_wraps_round() {
    let mut tracker = TimeTracker::new();
    tracker.begin(0);
    tracker.end(u64::MAX);
    tracker.begin(0);
    tracker.end(5);
    assert_eq!(tracker.total(), 4);
}
