use perceive::sources::match_existing_items::classify;
use perceive::sources::match_existing_items::decide;
use perceive::sources::match_existing_items::match_to_existing_items;
use perceive::sources::match_existing_items::ExistingRow;
use perceive::sources::match_existing_items::Verdict;
use perceive::sources::pipeline::FoundItem;
use perceive::sources::pipeline::ScanItemState;
use perceive::sources::ItemCompareStrategy;
use perceive::Item;
use perceive::ItemMetadata;

fn reconcile_found(id: i64, modified: Option<i64>, has_embedding: bool) -> FoundItem {
    FoundItem {
        id,
        hash: String::new(),
        content: "stored".to_string(),
        modified,
        last_accessed: None,
        skipped: None,
        has_embedding,
    }
}

fn reconcile_item(external_id: &str, mtime: Option<i64>) -> Item {
    Item {
        id: -1,
        source_id: 1,
        external_id: external_id.to_string(),
        hash: None,
        content: None,
        raw_content: None,
        process_version: 0,
        metadata: ItemMetadata { name: None, author: None, description: None, mtime, atime: None },
        skipped: None,
    }
}

#[test]
fn the_decision_table_row_by_row() {
    for time_match in [None, Some(false), Some(true)] {
        for sufficient in [false, true] {
            assert_eq!(decide(true, time_match, sufficient), Verdict::Changed);
        }
    }
    assert_eq!(decide(false, Some(false), false), Verdict::Changed);
    assert_eq!(decide(false, Some(false), true), Verdict::Changed);
    assert_eq!(decide(false, Some(true), true), Verdict::Unchanged);
    assert_eq!(decide(false, Some(true), false), Verdict::Found);
    assert_eq!(decide(false, None, false), Verdict::Found);
    assert_eq!(decide(false, None, true), Verdict::Found);
}

#[test]
fn classification_over_every_strategy_embedding_and_time() {
    let strategies = [
        ItemCompareStrategy::MTimeAndContent,
        ItemCompareStrategy::MTime,
        ItemCompareStrategy::Content,
        ItemCompareStrategy::Force,
    ];
    let times: [(Option<i64>, Option<i64>); 5] =
        [(Some(5), Some(5)), (Some(5), Some(6)), (None, Some(5)), (Some(5), None), (None, None)];
    for strategy in strategies {
        for has_embedding in [false, true] {
            for (mtime, stored) in times {
                let found = reconcile_found(9, stored, has_embedding);
                let state = classify(strategy, found.clone(), mtime);

                let force = strategy == ItemCompareStrategy::Force || !has_embedding;
                let compares = strategy == ItemCompareStrategy::MTimeAndContent
                    || strategy == ItemCompareStrategy::MTime;
                let time_match = match (mtime, stored) {
                    (Some(a), Some(b)) if compares => Some(a == b),
                    _ => None,
                };
                let expected = if force {
                    ScanItemState::Changed(found)
                } else if time_match == Some(false) {
                    ScanItemState::Changed(found)
                } else if time_match == Some(true) {
                    if strategy == ItemCompareStrategy::MTime {
                        ScanItemState::Unchanged { id: 9 }
                    } else {
                        ScanItemState::Found(found)
                    }
                } else {
                    ScanItemState::Found(found)
                };
                assert_eq!(state, expected, "{:?} {} {:?} {:?}", strategy, has_embedding, mtime, stored);
            }
        }
    }
}

#[test]
fn an_item_without_a_row_is_new() {
    let out = match_to_existing_items(
        ItemCompareStrategy::MTimeAndContent,
        vec![reconcile_item("/tmp/d/a.md", Some(10))],
        vec![],
    );
    assert_eq!(out.len(), 1);
    assert_eq!(out[0].state, ScanItemState::New);
    assert_eq!(out[0].item, reconcile_item("/tmp/d/a.md", Some(10)));
}

#[test]
fn items_take_the_rows_under_their_keys() {
    let rows = vec![
        ExistingRow { external_id: "b".to_string(), found: reconcile_found(2, Some(20), true) },
        ExistingRow { external_id: "a".to_string(), found: reconcile_found(1, Some(10), true) },
        ExistingRow { external_id: "d".to_string(), found: reconcile_found(4, Some(40), false) },
    ];
    let batch = vec![
        reconcile_item("a", Some(10)),
        reconcile_item("b", Some(21)),
        reconcile_item("c", Some(30)),
        reconcile_item("d", Some(40)),
    ];
    let out = match_to_existing_items(ItemCompareStrategy::MTime, batch.clone(), rows);
    assert_eq!(out.len(), 4);
    assert_eq!(out[0].state, ScanItemState::Unchanged { id: 1 });
    assert_eq!(out[1].state, ScanItemState::Changed(reconcile_found(2, Some(20), true)));
    assert_eq!(out[2].state, ScanItemState::New);
    assert_eq!(out[3].state, ScanItemState::Changed(reconcile_found(4, Some(40), false)));
    for i in 0..4 {
        assert_eq!(out[i].item, batch[i]);
    }
}

#[test]
fn items_of_one_key_are_classified_alike() {
    let rows =
        vec![ExistingRow { external_id: "a".to_string(), found: reconcile_found(1, Some(10), true) }];
    let batch = vec![reconcile_item("a", Some(10)), reconcile_item("a", Some(10))];
    let out = match_to_existing_items(ItemCompareStrategy::MTimeAndContent, batch, rows);
    assert_eq!(out[0].state, ScanItemState::Found(reconcile_found(1, Some(10), true)));
    assert_eq!(out[1].state, ScanItemState::Found(reconcile_found(1, Some(10), true)));
}

#[test]
fn the_second_item_of_a_key_follows_the_decision_table() {
    let cases = vec![
        (ItemCompareStrategy::Force, true, Some(10), ScanItemState::Changed(reconcile_found(1, Some(10), true))),
        (ItemCompareStrategy::MTime, false, Some(10), ScanItemState::Changed(reconcile_found(1, Some(10), false))),
        (ItemCompareStrategy::MTimeAndContent, true, Some(11), ScanItemState::Changed(reconcile_found(1, Some(10), true))),
        (ItemCompareStrategy::MTime, true, Some(11), ScanItemState::Changed(reconcile_found(1, Some(10), true))),
        (ItemCompareStrategy::MTime, true, Some(10), ScanItemState::Unchanged { id: 1 }),
        (ItemCompareStrategy::MTimeAndContent, true, Some(10), ScanItemState::Found(reconcile_found(1, Some(10), true))),
        (ItemCompareStrategy::Content, true, Some(10), ScanItemState::Found(reconcile_found(1, Some(10), true))),
        (ItemCompareStrategy::Content, true, Some(11), ScanItemState::Found(reconcile_found(1, Some(10), true))),
    ];
    for (strategy, has_embedding, mtime, expected) in cases {
        let rows = vec![
            ExistingRow { external_id: "b".to_string(), found: reconcile_found(2, Some(10), true) },
            ExistingRow {
                external_id: "a".to_string(),
                found: reconcile_found(1, Some(10), has_embedding),
            },
        ];
        let batch = vec![
            reconcile_item("a", mtime),
            reconcile_item("c", mtime),
            reconcile_item("a", mtime),
        ];
        let out = match_to_existing_items(strategy, batch, rows);
        assert_eq!(out[0].state, expected, "{:?}", strategy);
        assert_eq!(out[1].state, ScanItemState::New);
        assert_eq!(out[2].state, expected, "{:?}", strategy);
    }
}

#[test]
fn states_name_their_stored_row() {
    assert_eq!(ScanItemState::New.item_id(), None);
    assert_eq!(ScanItemState::Unchanged { id: 7 }.item_id(), Some(7));
    assert_eq!(ScanItemState::Found(reconcile_found(8, None, true)).item_id(), Some(8));
    assert_eq!(ScanItemState::Changed(reconcile_found(9, None, true)).item_id(), Some(9));
}
