use perceive::sources::fs::apply_front_matter;
use perceive::sources::fs::read_file;
use perceive::sources::fs::reprocess;
use perceive::sources::fs::reprocess_text;
use perceive::sources::fs::FileEntry;
use perceive::sources::fs::FileScanner;
use perceive::sources::fs::FrontMatter;
use perceive::sources::parse_html::compress;
use perceive::sources::parse_html::decompress;
use perceive::sources::parse_html::ReadError;
use perceive::sources::pipeline::SourceScannerReadResult;
use perceive::sources::FsSourceConfig;
use perceive::Item;
use perceive::ItemMetadata;

fn fs_scanner(globs: Vec<&str>) -> FileScanner {
    FileScanner {
        source_id: 1,
        location: "/tmp/d".to_string(),
        config: FsSourceConfig { globs: globs.into_iter().map(|g| g.to_string()).collect() },
    }
}

fn fs_entry(path: &str, is_file: bool) -> FileEntry {
    FileEntry { path: path.to_string(), is_file, mtime: Some(10), atime: Some(20) }
}

fn fs_item(path: &str) -> Item {
    Item {
        id: -1,
        source_id: 1,
        external_id: path.to_string(),
        hash: None,
        content: None,
        raw_content: None,
        process_version: 0,
        metadata: ItemMetadata {
            name: None,
            author: None,
            description: None,
            mtime: Some(10),
            atime: Some(20),
        },
        skipped: None,
    }
}

fn fs_front(title: Option<&str>, name: Option<&str>) -> FrontMatter {
    FrontMatter {
        title: title.map(|t| t.to_string()),
        author: Some("Ann".to_string()),
        name: name.map(|t| t.to_string()),
        summary: Some("short".to_string()),
        description: None,
        content: "body".to_string(),
    }
}

#[test]
fn without_globs_every_file_matches() {
    let scanner = fs_scanner(vec![]);
    let globs = scanner.globs().unwrap();
    assert_eq!(scanner.visit(&globs, fs_entry("/tmp/d/a.md", true)), Some(fs_item("/tmp/d/a.md")));
    assert_eq!(
        scanner.visit(&globs, fs_entry("/tmp/d/sub/b.bin", true)),
        Some(fs_item("/tmp/d/sub/b.bin"))
    );
    assert_eq!(scanner.visit(&globs, fs_entry("/tmp/d/sub", false)), None);
    assert_eq!(scanner.latest_process_version(), 0);
}

#[test]
fn globs_choose_the_files() {
    let scanner = fs_scanner(vec!["*.md", "**/notes/*.txt"]);
    let globs = scanner.globs().unwrap();
    assert!(scanner.visit(&globs, fs_entry("/tmp/d/a.md", true)).is_some());
    assert!(scanner.visit(&globs, fs_entry("/tmp/d/notes/b.txt", true)).is_some());
    assert!(scanner.visit(&globs, fs_entry("/tmp/d/other/b.txt", true)).is_none());
    assert!(scanner.visit(&globs, fs_entry("/tmp/d/a.rs", true)).is_none());
    assert!(scanner.visit(&globs, fs_entry("/tmp/d/dir.md", false)).is_none());
}

#[test]
fn a_pattern_that_is_no_glob_gives_no_set() {
    assert!(fs_scanner(vec!["a[", "*.md"]).globs().is_none());
    assert!(fs_scanner(vec!["{a,b"]).globs().is_none());
}

#[test]
fn unreadable_and_blank_files_are_omitted() {
    let mut item = fs_item("/tmp/d/a.md");
    assert_eq!(read_file(&mut item, None, None), Ok(SourceScannerReadResult::Omit));
    assert_eq!(item, fs_item("/tmp/d/a.md"));
    assert_eq!(
        read_file(&mut item, Some(" \n\t".to_string()), None),
        Ok(SourceScannerReadResult::Omit)
    );
    assert_eq!(read_file(&mut item, Some(String::new()), None), Ok(SourceScannerReadResult::Omit));
    assert_eq!(item, fs_item("/tmp/d/a.md"));
}

#[test]
fn a_plain_file_is_its_content() {
    let mut item = fs_item("/tmp/d/a.md");
    assert_eq!(
        read_file(&mut item, Some("hello world".to_string()), None),
        Ok(SourceScannerReadResult::Found)
    );
    let mut expected = fs_item("/tmp/d/a.md");
    expected.content = Some("hello world".to_string());
    assert_eq!(item, expected);
}

#[test]
fn front_matter_fills_the_item_and_the_file_is_kept() {
    let file = "---\ntitle: T\n---\nbody";
    let mut item = fs_item("/tmp/d/a.md");
    assert_eq!(
        read_file(&mut item, Some(file.to_string()), Some(fs_front(Some("T"), Some("N")))),
        Ok(SourceScannerReadResult::Found)
    );
    assert_eq!(item.metadata.name, Some("T".to_string()));
    assert_eq!(item.metadata.description, Some("short".to_string()));
    assert_eq!(item.metadata.author, Some("Ann".to_string()));
    assert_eq!(item.metadata.mtime, Some(10));
    assert_eq!(item.content, Some("body".to_string()));
    assert_eq!(decompress(&item.raw_content.unwrap()), Some(file.as_bytes().to_vec()));
}

#[test]
fn title_goes_before_name_and_description_before_summary() {
    let mut item = fs_item("a");
    apply_front_matter(&mut item, fs_front(None, Some("N")));
    assert_eq!(item.metadata.name, Some("N".to_string()));
    let mut item = fs_item("a");
    apply_front_matter(&mut item, fs_front(None, None));
    assert_eq!(item.metadata.name, None);
    let mut item = fs_item("a");
    let mut front = fs_front(Some("T"), None);
    front.description = Some("long".to_string());
    front.author = None;
    apply_front_matter(&mut item, front);
    assert_eq!(item.metadata.description, Some("long".to_string()));
    assert_eq!(item.metadata.author, None);
}

#[test]
fn reprocessing_starts_from_raw_content_or_content() {
    let mut item = fs_item("a");
    assert_eq!(reprocess_text(&item), Ok(None));
    item.content = Some("plain".to_string());
    assert_eq!(reprocess_text(&item), Ok(Some("plain".to_string())));
    item.raw_content = Some(compress(b"---\ntitle: T\n---\nbody").unwrap());
    assert_eq!(reprocess_text(&item), Ok(Some("---\ntitle: T\n---\nbody".to_string())));
    item.raw_content = Some(vec![0]);
    assert_eq!(reprocess_text(&item), Err(ReadError::Decompress));
    item.raw_content = Some(compress(&[0xc3, 0x28]).unwrap());
    assert_eq!(reprocess_text(&item), Err(ReadError::NotText));
}

#[test]
fn reprocessing_finds_what_has_front_matter() {
    let mut item = fs_item("a");
    item.content = Some("old".to_string());
    assert_eq!(reprocess(&mut item, None), SourceScannerReadResult::Unchanged);
    assert_eq!(item.content, Some("old".to_string()));
    assert_eq!(reprocess(&mut item, Some(fs_front(Some("T"), None))), SourceScannerReadResult::Found);
    assert_eq!(item.content, Some("body".to_string()));
    assert_eq!(item.metadata.name, Some("T".to_string()));
}
