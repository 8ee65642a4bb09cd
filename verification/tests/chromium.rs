use perceive::sources::chromium_bookmarks::BookmarkEntry;
use perceive::sources::chromium_bookmarks::ChromiumBookmarksScanner;
use perceive::sources::chromium_history::chromium_time_to_unix;
use perceive::sources::chromium_history::normalize_visit;
use perceive::sources::chromium_history::ChromiumHistoryScanner;
use perceive::sources::chromium_history::HistoryRow;
use perceive::sources::parse_html::HTML_PROCESS_VERSION;
use perceive::sources::ChromiumBookmarksConfig;
use perceive::sources::ChromiumHistoryConfig;
use perceive::Item;
use perceive::ItemMetadata;

fn chromium_row(url: &str, title: &str, last_visit_time: i64) -> HistoryRow {
    HistoryRow { url: url.to_string(), title: title.to_string(), last_visit_time }
}

fn chromium_item(source_id: i64, url: &str, name: &str, atime: Option<i64>) -> Item {
    Item {
        id: -1,
        source_id,
        external_id: url.to_string(),
        hash: None,
        content: None,
        raw_content: None,
        process_version: HTML_PROCESS_VERSION,
        metadata: ItemMetadata {
            name: Some(name.to_string()),
            author: None,
            description: None,
            mtime: None,
            atime,
        },
        skipped: None,
    }
}

fn chromium_bookmark(url: &str, name: &str, date_added: &str, date_last_used: &str) -> BookmarkEntry {
    BookmarkEntry::Url {
        id: "1".to_string(),
        url: url.to_string(),
        name: name.to_string(),
        date_added: date_added.to_string(),
        date_last_used: date_last_used.to_string(),
        date_modified: None,
    }
}

fn chromium_folder(children: Vec<BookmarkEntry>) -> BookmarkEntry {
    BookmarkEntry::Folder { id: "0".to_string(), name: "folder".to_string(), children }
}

#[test]
fn browser_times_count_from_1601() {
    assert_eq!(chromium_time_to_unix(0), -11644473600);
    assert_eq!(chromium_time_to_unix(11644473600 * 1_000_000), 0);
    assert_eq!(chromium_time_to_unix(13_320_000_000_000_000), 1_675_526_400);
    assert_eq!(chromium_time_to_unix(13_320_000_000_999_999), 1_675_526_400);
    assert_eq!(chromium_time_to_unix(-1), -11644473601);
    assert_eq!(chromium_time_to_unix(-1_000_000), -11644473601);
    assert_eq!(chromium_time_to_unix(-1_000_001), -11644473602);
    assert_eq!(chromium_time_to_unix(i64::MIN), -9223372036855 - 11644473600);
    assert_eq!(chromium_time_to_unix(i64::MAX), 9223372036854 - 11644473600);
}

#[test]
fn visits_are_requested_over_https_without_fragment() {
    let none: Vec<String> = vec![];
    assert_eq!(
        normalize_visit(&none, "http://example.com/a/#frag".to_string()),
        Some(("https://example.com/a/".to_string(), "https://example.com/a".to_string()))
    );
    assert_eq!(
        normalize_visit(&none, "https://example.com/a#frag".to_string()),
        Some(("https://example.com/a".to_string(), "https://example.com/a".to_string()))
    );
    assert_eq!(
        normalize_visit(&none, "https://Example.com/a?q=1".to_string()),
        Some(("https://Example.com/a?q=1".to_string(), "https://Example.com/a?q=1".to_string()))
    );
    assert_eq!(
        normalize_visit(&none, "https://example.com/a/?q=1".to_string()),
        Some(("https://example.com/a/?q=1".to_string(), "https://example.com/a?q=1".to_string()))
    );
    assert_eq!(
        normalize_visit(&none, "https://example.com".to_string()),
        Some(("https://example.com".to_string(), "https://example.com/".to_string()))
    );
}

#[test]
fn visits_without_url_or_on_skipped_hosts_are_passed_over() {
    let none: Vec<String> = vec![];
    assert_eq!(normalize_visit(&none, "http//nowhere".to_string()), None);
    assert_eq!(normalize_visit(&none, String::new()), None);
    assert_eq!(normalize_visit(&none, "https://accounts.google.com/signin".to_string()), None);
    let skip = vec!["example.com".to_string()];
    assert_eq!(normalize_visit(&skip, "https://www.example.com/a".to_string()), None);
    assert!(normalize_visit(&skip, "https://example.org/a".to_string()).is_some());
}

#[test]
fn a_history_gives_one_item_per_page() {
    let scanner = ChromiumHistoryScanner::new(
        7,
        "/browser".to_string(),
        ChromiumHistoryConfig { skip: vec!["skipped.example".to_string()] },
    );
    assert_eq!(scanner.latest_process_version(), 1);
    let rows = vec![
        chromium_row("http://example.com/a/", "A", 13_320_000_000_000_000),
        chromium_row("https://example.com/a#top", "A again", 13_320_000_001_000_000),
        chromium_row("https://skipped.example/x", "Skipped", 13_320_000_000_000_000),
        chromium_row("nonsense", "No URL", 13_320_000_000_000_000),
        chromium_row("https://example.com/b", "B", 13_320_000_002_500_000),
        chromium_row("https://example.com/a", "A third", 13_320_000_003_000_000),
    ];
    let out = scanner.scan(rows);
    assert_eq!(
        out,
        vec![
            chromium_item(7, "https://example.com/a/", "A", Some(1_675_526_400)),
            chromium_item(7, "https://example.com/b", "B", Some(1_675_526_402)),
        ]
    );
    assert!(scanner.scan(vec![]).is_empty());
}

#[test]
fn bookmarks_become_items_in_the_order_of_the_tree() {
    let scanner = ChromiumBookmarksScanner::new(
        3,
        "/browser".to_string(),
        ChromiumBookmarksConfig { skip: vec!["skipped.example".to_string()] },
    );
    assert_eq!(scanner.latest_process_version(), 1);
    let tree = chromium_folder(vec![
        chromium_bookmark("https://example.com/a", "A", "100", "200"),
        chromium_folder(vec![
            chromium_bookmark("https://example.com/b#x", "B", "300", "0"),
            chromium_bookmark("nonsense", "No URL", "1", "2"),
            chromium_folder(vec![]),
            chromium_bookmark("https://skipped.example/", "Skipped", "1", "2"),
        ]),
        chromium_bookmark("http://example.com/c", "C", "13312345678901234", "0"),
    ]);
    let mut out = Vec::new();
    scanner.walk_bookmarks(&mut out, &tree);
    assert_eq!(
        out,
        vec![
            chromium_item(3, "https://example.com/a", "A", Some(200)),
            chromium_item(3, "https://example.com/b#x", "B", Some(300)),
            chromium_item(3, "http://example.com/c", "C", None),
        ]
    );
}

#[test]
fn walking_appends_to_what_is_there() {
    let scanner =
        ChromiumBookmarksScanner::new(3, String::new(), ChromiumBookmarksConfig { skip: vec![] });
    let mut out = vec![chromium_item(1, "first", "First", None)];
    scanner.walk_bookmarks(&mut out, &chromium_bookmark("https://example.com/", "E", "x", "-5"));
    assert_eq!(out.len(), 2);
    assert_eq!(out[0], chromium_item(1, "first", "First", None));
    assert_eq!(out[1], chromium_item(3, "https://example.com/", "E", Some(-5)));
}

#[test]
fn bookmark_times_are_seconds_within_the_calendar() {
    let scanner =
        ChromiumBookmarksScanner::new(3, String::new(), ChromiumBookmarksConfig { skip: vec![] });
    let cases: Vec<(&str, &str, Option<i64>)> = vec![
        ("5", "0", Some(5)),
        ("5", "6", Some(6)),
        ("5", "00", Some(0)),
        ("5", "", None),
        ("abc", "0", None),
        ("253402300799", "0", Some(253402300799)),
        ("253402300800", "0", None),
        ("-377705116800", "0", Some(-377705116800)),
        ("-377705116801", "0", None),
    ];
    for (added, used, expected) in cases {
        let mut out = Vec::new();
        scanner.walk_bookmarks(&mut out, &chromium_bookmark("https://example.com/", "E", added, used));
        assert_eq!(out[0].metadata.atime, expected, "{:?} {:?}", added, used);
    }
}
