use perceive::search::build_sources;
use perceive::search::deserialize_embedding;
use perceive::search::is_selected;
use perceive::search::merge_hits;
use perceive::search::score_rank;
use perceive::search::search_vector_and_retrieve;
use perceive::search::serialize_embedding;
use perceive::search::sort_by_distance;
use perceive::search::Point;
use perceive::search::SearchItem;
use perceive::search::Searcher;
use perceive::search::SourceHits;
use perceive::search::SourcePoints;
use perceive::search::SourceSearch;
use perceive::search::StoredEmbedding;
use perceive::Item;
use perceive::ItemMetadata;
use std::collections::HashSet;

fn search_hit(id: i64, distance: f32) -> SearchItem {
    SearchItem { id, score: distance.to_bits() }
}

fn search_row(id: i64, source_id: i64) -> Item {
    Item {
        id,
        source_id,
        external_id: format!("item {}", id),
        hash: None,
        content: Some("text".to_string()),
        raw_content: None,
        process_version: 0,
        metadata: ItemMetadata { name: None, author: None, description: None, mtime: None, atime: None },
        skipped: None,
    }
}

#[test]
fn embeddings_are_stored_lowest_byte_first() {
    assert_eq!(serialize_embedding(&[0x0403_0201, 0xffee_ddcc]), vec![1, 2, 3, 4, 0xcc, 0xdd, 0xee, 0xff]);
    assert_eq!(serialize_embedding(&[]), Vec::<u8>::new());
    assert_eq!(deserialize_embedding(&[1, 2, 3, 4, 0xcc, 0xdd, 0xee, 0xff]), vec![0x0403_0201, 0xffee_ddcc]);
    assert_eq!(deserialize_embedding(&[]), Vec::<u32>::new());
}

#[test]
fn serializing_agrees_with_the_bytes_of_floats() {
    let values: Vec<f32> = vec![0.0, -0.0, 1.0, -1.0, 0.1, f32::MAX, f32::MIN_POSITIVE, f32::INFINITY];
    let bits: Vec<u32> = values.iter().map(|v| v.to_bits()).collect();
    let expected: Vec<u8> = values.iter().flat_map(|v| v.to_le_bytes()).collect();
    assert_eq!(serialize_embedding(&bits), expected);
}

#[test]
fn serialize_and_deserialize_undo_each_other() {
    let mut state: u32 = 0x1234_5678;
    let mut bytes: Vec<u8> = Vec::new();
    for _ in 0..400 {
        state = state.wrapping_mul(1664525).wrapping_add(1013904223);
        bytes.push((state >> 24) as u8);
    }
    assert_eq!(serialize_embedding(&deserialize_embedding(&bytes)), bytes);

    let vector: Vec<u32> = (0..100u32).map(|i| i.wrapping_mul(0x9e37_79b9)).collect();
    assert_eq!(deserialize_embedding(&serialize_embedding(&vector)), vector);
}

#[test]
fn ranks_follow_the_order_of_distances() {
    let distances: Vec<f32> = vec![
        f32::NEG_INFINITY, -3.5, -1.0, -1.0e-30, -0.0, 0.0, 1.0e-30, 0.25, 1.0, 7.5, f32::INFINITY,
    ];
    for pair in distances.windows(2) {
        assert!(
            score_rank(pair[0].to_bits()) < score_rank(pair[1].to_bits()),
            "{} before {}",
            pair[0],
            pair[1]
        );
    }
    assert_eq!(score_rank(0.0f32.to_bits()), 0x8000_0000);
    assert_eq!(score_rank((-0.0f32).to_bits()), 0x7fff_ffff);
}

#[test]
fn sorting_is_by_distance_and_keeps_ties_in_order() {
    let items = vec![
        search_hit(1, 0.5),
        search_hit(2, -0.5),
        search_hit(3, 0.5),
        search_hit(4, 0.1),
        search_hit(5, -0.7),
    ];
    let sorted = sort_by_distance(&items);
    let ids: Vec<i64> = sorted.iter().map(|h| h.id).collect();
    assert_eq!(ids, vec![5, 2, 4, 1, 3]);
}

#[test]
fn selection_is_membership() {
    assert!(is_selected(&[1, 2, 3], 2));
    assert!(!is_selected(&[1, 2, 3], 4));
    assert!(!is_selected(&[], 4));
}

#[test]
fn merging_takes_the_nearest_of_the_sources_asked_for() {
    let found = vec![
        SourceHits { source_id: 1, hits: vec![search_hit(10, -0.9), search_hit(11, -0.5), search_hit(12, -0.1)] },
        SourceHits { source_id: 2, hits: vec![search_hit(20, -0.8), search_hit(21, -0.6)] },
        SourceHits { source_id: 3, hits: vec![search_hit(30, -1.0)] },
    ];
    let out = merge_hits(&[1, 2], &HashSet::new(), 3, &found);
    assert_eq!(out, vec![search_hit(10, -0.9), search_hit(20, -0.8), search_hit(21, -0.6)]);

    let out = merge_hits(&[1, 2, 3], &HashSet::new(), 10, &found);
    let ids: Vec<i64> = out.iter().map(|h| h.id).collect();
    assert_eq!(ids, vec![30, 10, 20, 21, 11, 12]);

    assert!(merge_hits(&[], &HashSet::new(), 3, &found).is_empty());
    assert!(merge_hits(&[1, 2], &HashSet::new(), 0, &found).is_empty());
}

#[test]
fn hidden_items_never_come_back() {
    let found = vec![
        SourceHits { source_id: 1, hits: vec![search_hit(10, 0.1), search_hit(11, 0.2), search_hit(12, 0.3)] },
        SourceHits { source_id: 2, hits: vec![search_hit(20, 0.15)] },
    ];
    let mut hidden = HashSet::new();
    hidden.insert(10);
    let out = merge_hits(&[1, 2], &hidden, 2, &found);
    assert_eq!(out, vec![search_hit(20, 0.15), search_hit(11, 0.2)]);
}

#[test]
fn each_source_gives_at_most_k_visible_hits() {
    let found = vec![SourceHits {
        source_id: 1,
        hits: vec![search_hit(1, 0.5), search_hit(2, 0.4), search_hit(3, 0.3), search_hit(4, 0.2)],
    }];
    let out = merge_hits(&[1], &HashSet::new(), 2, &found);
    assert_eq!(out, vec![search_hit(2, 0.4), search_hit(1, 0.5)]);
}

#[test]
fn a_searcher_files_rebuilt_structures() {
    let mut searcher: Searcher<&str> = Searcher::new(vec![
        SourceSearch { id: 1, index: "one" },
        SourceSearch { id: 2, index: "two" },
    ]);
    assert_eq!(searcher.len(), 2);

    searcher.rebuild_source(Some(SourceSearch { id: 2, index: "two again" }));
    assert_eq!(searcher.len(), 2);
    assert_eq!(searcher.structure(1).index, "two again");
    assert_eq!(searcher.structure(0).index, "one");

    searcher.rebuild_source(Some(SourceSearch { id: 3, index: "three" }));
    assert_eq!(searcher.len(), 3);
    assert_eq!(searcher.structure(2).id, 3);

    searcher.rebuild_source(None);
    assert_eq!(searcher.len(), 3);
}

#[test]
fn a_searcher_asks_the_structures_of_the_wanted_sources() {
    let searcher: Searcher<()> = Searcher::new(vec![
        SourceSearch { id: 5, index: () },
        SourceSearch { id: 6, index: () },
        SourceSearch { id: 7, index: () },
    ]);
    assert_eq!(searcher.selected(&[7, 5]), vec![0, 2]);
    assert_eq!(searcher.selected(&[8]), Vec::<usize>::new());
}

#[test]
fn hiding_needs_no_rebuild() {
    let mut searcher: Searcher<()> = Searcher::new(vec![SourceSearch { id: 1, index: () }]);
    let found = vec![SourceHits {
        source_id: 1,
        hits: vec![search_hit(1, 0.1), search_hit(2, 0.2), search_hit(3, 0.3)],
    }];
    assert_eq!(searcher.search_vector(&[1], 2, &found), vec![search_hit(1, 0.1), search_hit(2, 0.2)]);
    assert!(!searcher.is_hidden(1));
    searcher.hide_item(1);
    assert!(searcher.is_hidden(1));
    assert_eq!(searcher.search_vector(&[1], 2, &found), vec![search_hit(2, 0.2), search_hit(3, 0.3)]);
}

#[test]
fn hits_are_paired_with_their_rows_nearest_first() {
    let hits = vec![search_hit(3, 0.3), search_hit(1, 0.1), search_hit(2, 0.2), search_hit(4, 0.05)];
    let rows = vec![search_row(2, 1), search_row(3, 1), search_row(1, 2)];
    let out = search_vector_and_retrieve(rows, &hits);
    assert_eq!(
        out,
        vec![
            (search_row(1, 2), search_hit(1, 0.1)),
            (search_row(2, 1), search_hit(2, 0.2)),
            (search_row(3, 1), search_hit(3, 0.3)),
        ]
    );
}

#[test]
fn embeddings_are_sorted_by_source() {
    let rows = vec![
        StoredEmbedding { item_id: 1, source_id: 10, embedding: vec![1] },
        StoredEmbedding { item_id: 2, source_id: 30, embedding: vec![2] },
        StoredEmbedding { item_id: 3, source_id: 10, embedding: vec![3] },
        StoredEmbedding { item_id: 4, source_id: 99, embedding: vec![4] },
    ];
    let out = build_sources(&[30, 20, 10], rows);
    assert_eq!(
        out,
        vec![
            SourcePoints { source_id: 30, points: vec![Point { item_id: 2, embedding: vec![2] }] },
            SourcePoints {
                source_id: 10,
                points: vec![
                    Point { item_id: 1, embedding: vec![1] },
                    Point { item_id: 3, embedding: vec![3] }
                ]
            },
        ]
    );
    assert!(build_sources(&[], vec![StoredEmbedding { item_id: 1, source_id: 1, embedding: vec![] }]).is_empty());
}

#[test]
fn a_hidden_result_is_replaced_by_the_next_nearest() {
    let found = vec![
        SourceHits {
            source_id: 1,
            hits: vec![search_hit(10, -0.9), search_hit(11, -0.5), search_hit(12, -0.1)],
        },
        SourceHits {
            source_id: 2,
            hits: vec![search_hit(20, -0.8), search_hit(21, -0.6), search_hit(22, -0.4)],
        },
    ];
    let all = vec![
        search_hit(10, -0.9),
        search_hit(20, -0.8),
        search_hit(21, -0.6),
        search_hit(11, -0.5),
        search_hit(22, -0.4),
        search_hit(12, -0.1),
    ];
    for k in 1..all.len() {
        let first = merge_hits(&[1, 2], &HashSet::new(), k, &found);
        assert_eq!(first, all[..k].to_vec());
        for at in 0..k {
            let mut hidden = HashSet::new();
            hidden.insert(first[at].id);
            let second = merge_hits(&[1, 2], &hidden, k, &found);
            let mut expected = first.clone();
            expected.remove(at);
            expected.push(all[k]);
            assert_eq!(second, expected, "k = {}, hidden place {}", k, at);
        }
    }
}
