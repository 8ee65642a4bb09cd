//! The bookmarks of a Chromium browser as a source of pages.

use vstd::prelude::*;
use vstd::string::*;
use crate::Item;
use crate::ItemMetadata;
use crate::sources::ChromiumBookmarksConfig;
use crate::sources::parse_html::skipped_host;
use crate::sources::parse_html::should_skip;
use crate::sources::parse_html::HTML_PROCESS_VERSION;
use crate::sources::urls::host_text;
use crate::sources::urls::parse_url;
use crate::sources::urls::url_parts;
use crate::text;

verus! {

/// A node of the tree of bookmarks: a bookmark, or a folder of nodes.
#[derive(Debug)]
pub enum BookmarkEntry {
    Url {
        id: String,
        url: String,
        name: String,
        date_added: String,
        date_last_used: String,
        date_modified: Option<String>,
    },
    Folder { id: String, name: String, children: Vec<BookmarkEntry> },
}

/// The first and the last second that a time of access may name: the start
/// of the year -9999 and the end of the year 9999.
pub const FIRST_SECOND: i64 = -377705116800;

pub const LAST_SECOND: i64 = 253402300799;

/// The time of access that a bookmark's dates give: the date of last use,
/// or the date of addition where the bookmark was never used, read as a
/// decimal number of seconds; none where that is no number or no second of
/// the years -9999 to 9999.
pub open spec fn bookmark_atime(date_added: Seq<char>, date_last_used: Seq<char>) -> Option<i64> {
    let chosen = if date_last_used == "0"@ {
        date_added
    } else {
        date_last_used
    };
    match text::decimal_i64(chosen) {
        Some(t) if FIRST_SECOND <= t <= LAST_SECOND => Some(t),
        _ => None,
    }
}

/// Whether the bookmark of address `url` becomes an item: the address is a
/// URL, and its host is not to be skipped.
pub open spec fn bookmark_kept(skip: Seq<String>, url: Seq<char>) -> bool {
    match url_parts(url) {
        Some(parts) => !skipped_host(skip, host_text(parts.1)),
        None => false,
    }
}

/// The items of the bookmarks under a node, in the order of the tree.
pub open spec fn bookmark_items(source_id: i64, skip: Seq<String>, entry: BookmarkEntry) -> Seq<Item>
    decreases entry,
{
    match entry {
        BookmarkEntry::Url { url, name, date_added, date_last_used, .. } => if bookmark_kept(
            skip,
            url@,
        ) {
            seq![
                Item {
                    id: -1i64,
                    source_id,
                    external_id: url,
                    hash: None,
                    content: None,
                    raw_content: None,
                    process_version: HTML_PROCESS_VERSION,
                    metadata: ItemMetadata {
                        name: Some(name),
                        author: None,
                        description: None,
                        mtime: None,
                        atime: bookmark_atime(date_added@, date_last_used@),
                    },
                    skipped: None,
                },
            ]
        } else {
            Seq::empty()
        },
        BookmarkEntry::Folder { children, .. } => children_items(
            source_id,
            skip,
            children@,
            children@.len() as int,
        ),
    }
}

/// The items of the bookmarks under the first `n` of `children`.
pub open spec fn children_items(
    source_id: i64,
    skip: Seq<String>,
    children: Seq<BookmarkEntry>,
    n: int,
) -> Seq<Item>
    decreases children, n,
{
    if n <= 0 || n > children.len() {
        Seq::empty()
    } else {
        children_items(source_id, skip, children, n - 1) + bookmark_items(
            source_id,
            skip,
            children[n - 1],
        )
    }
}

/// Reads bookmarks for one source.
pub struct ChromiumBookmarksScanner {
    pub source_id: i64,
    /// The directory that holds the file of bookmarks.
    pub location: String,
    pub config: ChromiumBookmarksConfig,
}

impl ChromiumBookmarksScanner {
    pub fn new(source_id: i64, location: String, config: ChromiumBookmarksConfig) -> (r: Self)
        ensures
            r.source_id == source_id,
            r.location == location,
            r.config == config,
    {
        ChromiumBookmarksScanner { source_id, location, config }
    }

    /// The version of the extraction that this scanner performs.
    pub fn latest_process_version(&self) -> (r: i32)
        ensures
            r == HTML_PROCESS_VERSION,
    {
        HTML_PROCESS_VERSION
    }

    /// Appends to `out` the items of the bookmarks under `entry`.
    pub fn walk_bookmarks(&self, out: &mut Vec<Item>, entry: &BookmarkEntry)
        ensures
            final(out)@ == old(out)@ + bookmark_items(self.source_id, self.config.skip@, *entry),
        decreases entry,
    {
        match entry {
            BookmarkEntry::Url { url, name, date_last_used, date_added, .. } => {
                let chosen_time = if text::str_eq(date_last_used.as_str(), "0") {
                    date_added
                } else {
                    date_last_used
                };
                let atime = match text::parse_i64(chosen_time.as_str()) {
                    Some(t) => if FIRST_SECOND <= t && t <= LAST_SECOND {
                        Some(t)
                    } else {
                        None
                    },
                    None => None,
                };
                let parsed = match parse_url(url.as_str()) {
                    Some(parsed) => parsed,
                    None => {
                        // An address that is no URL is passed over.
                        assert(old(out)@ + Seq::<Item>::empty() == old(out)@);
                        return ;
                    },
                };
                if should_skip(&self.config.skip, parsed.host_or_empty()) {
                    assert(old(out)@ + Seq::<Item>::empty() == old(out)@);
                    return ;
                }
                let item = Item {
                    id: -1,
                    external_id: url.clone(),
                    source_id: self.source_id,
                    content: None,
                    raw_content: None,
                    hash: None,
                    process_version: HTML_PROCESS_VERSION,
                    skipped: None,
                    metadata: ItemMetadata {
                        name: Some(name.clone()),
                        author: None,
                        description: None,
                        mtime: None,
                        atime,
                    },
                };
                out.push(item);
                assert(out@ == old(out)@ + seq![item]);
            },
            BookmarkEntry::Folder { children, .. } => {
                let mut i: usize = 0;
                assert(out@ + Seq::<Item>::empty() == out@);
                while i < children.len()
                    invariant
                        i <= children.len(),
                        *entry matches BookmarkEntry::Folder { children: c, .. } && c == children,
                        out@ == old(out)@ + children_items(
                            self.source_id,
                            self.config.skip@,
                            children@,
                            i as int,
                        ),
                    decreases children.len() - i,
                {
                    let ghost before = out@;
                    self.walk_bookmarks(out, &children[i]);
                    assert(out@ == old(out)@ + children_items(
                        self.source_id,
                        self.config.skip@,
                        children@,
                        i + 1,
                    ));
                    i = i + 1;
                }
            },
        }
    }
}

} // verus!
