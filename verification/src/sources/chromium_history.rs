//! The history of a Chromium browser as a source of pages.

use vstd::prelude::*;
use vstd::string::*;
use vstd::hash_set::StringHashSet;
use crate::Item;
use crate::ItemMetadata;
use crate::sources::ChromiumHistoryConfig;
use crate::sources::parse_html::skipped_host;
use crate::sources::parse_html::should_skip;
use crate::sources::parse_html::HTML_PROCESS_VERSION;
use crate::sources::urls::host_text;
use crate::sources::urls::parse_url;
use crate::sources::urls::replace_path;
use crate::sources::urls::with_scheme;
use crate::sources::urls::without_fragment;
use crate::sources::urls::url_parts;
use crate::sources::urls::url_with_scheme;
use crate::sources::urls::url_without_fragment;
use crate::sources::urls::url_with_path;
use crate::text;

verus! {

/// One address of the browser's history, with the latest title and the time
/// of the last visit as the browser counts it: in microseconds since the
/// start of the year 1601, UTC.
#[derive(Debug, Clone, PartialEq, Eq)]
pub struct HistoryRow {
    pub url: String,
    pub title: String,
    pub last_visit_time: i64,
}

/// Seconds from the start of 1601 to the Unix epoch.
pub const SECONDS_1601_TO_1970: i64 = 11644473600;

/// The second of Unix time in which a time of the browser lies.
pub open spec fn unix_seconds(micros: i64) -> int {
    micros / 1_000_000 - SECONDS_1601_TO_1970
}

/// Converts a time of the browser to whole seconds since the Unix epoch.
pub fn chromium_time_to_unix(micros: i64) -> (r: i64)
    ensures
        r == unix_seconds(micros),
{
    let whole: i64 = micros / 1_000_000;
    let rest: i64 = micros % 1_000_000;
    let floor: i64 = if rest < 0 {
        whole - 1
    } else {
        whole
    };
    floor - 11644473600
}

/// The address under which a page of the history is requested: pages are
/// always requested over `https` and without fragment, so an address that
/// has another scheme or a fragment is rewritten; `None` where the address
/// is no URL.
pub open spec fn requested_url(raw: Seq<char>) -> Option<Seq<char>> {
    match url_parts(raw) {
        Some(parts) => if parts.0 != "https"@ || parts.3 {
            match url_with_scheme(raw, "https"@) {
                Some(secured) => url_without_fragment(secured),
                None => None,
            }
        } else {
            Some(raw)
        },
        None => None,
    }
}

/// The key under which visits to one page are gathered: the requested
/// address without slashes at the end of its path.
pub open spec fn dedupe_key(url: Seq<char>, path: Seq<char>) -> Option<Seq<char>> {
    if text::without_trailing(path, '/') != path {
        url_with_path(url, text::without_trailing(path, '/'))
    } else {
        Some(url)
    }
}

/// The requested address and the key of a visit, or `None` where the visit
/// is passed over: because its address is no URL or because its host is
/// skipped.
pub open spec fn visit_of(skip: Seq<String>, raw: Seq<char>) -> Option<(Seq<char>, Seq<char>)> {
    match requested_url(raw) {
        Some(url) => match url_parts(url) {
            Some(parts) => if skipped_host(skip, host_text(parts.1)) {
                None
            } else {
                match dedupe_key(url, parts.2) {
                    Some(key) => Some((url, key)),
                    None => None,
                }
            },
            None => None,
        },
        None => None,
    }
}

/// The keys of the visits among the first `n` rows.
pub open spec fn seen_keys(skip: Seq<String>, rows: Seq<HistoryRow>, n: int) -> Set<Seq<char>>
    decreases n,
{
    if n <= 0 {
        Set::empty()
    } else {
        match visit_of(skip, rows[n - 1].url@) {
            Some(visit) => seen_keys(skip, rows, n - 1).insert(visit.1),
            None => seen_keys(skip, rows, n - 1),
        }
    }
}

/// A page of the history that becomes an item.
pub struct Visit {
    /// The requested address.
    pub url: Seq<char>,
    pub title: String,
    pub last_visit_time: i64,
}

/// The pages among the first `n` rows: one per key, from the first row with
/// that key, in the order of the rows.
pub open spec fn visits(skip: Seq<String>, rows: Seq<HistoryRow>, n: int) -> Seq<Visit>
    decreases n,
{
    if n <= 0 {
        Seq::empty()
    } else {
        let before = visits(skip, rows, n - 1);
        match visit_of(skip, rows[n - 1].url@) {
            Some(visit) => if seen_keys(skip, rows, n - 1).contains(visit.1) {
                before
            } else {
                before.push(
                    Visit {
                        url: visit.0,
                        title: rows[n - 1].title,
                        last_visit_time: rows[n - 1].last_visit_time,
                    },
                )
            },
            None => before,
        }
    }
}

/// Whether `item` is the item of the page `visit` in source `source_id`: it
/// is not yet stored, has the requested address as key, the title as name,
/// the last visit as time of access, and nothing else.
pub open spec fn is_visit_item(item: Item, source_id: i64, visit: Visit) -> bool {
    &&& item.id == -1
    &&& item.source_id == source_id
    &&& item.external_id@ == visit.url
    &&& item.hash is None
    &&& item.content is None
    &&& item.raw_content is None
    &&& item.process_version == HTML_PROCESS_VERSION
    &&& item.skipped is None
    &&& item.metadata.name == Some(visit.title)
    &&& item.metadata.author is None
    &&& item.metadata.description is None
    &&& item.metadata.mtime is None
    &&& item.metadata.atime == Some(unix_seconds(visit.last_visit_time) as i64)
}

/// The requested address and the key of a visit.
pub fn normalize_visit(skip: &Vec<String>, raw: String) -> (r: Option<(String, String)>)
    ensures
        match r {
            Some((url, key)) => visit_of(skip@, raw@) == Some((url@, key@)),
            None => visit_of(skip@, raw@) is None,
        },
{
    let parts = match parse_url(raw.as_str()) {
        Some(parts) => parts,
        None => {
            return None;
        },
    };
    // The history holds many addresses that differ in their fragment only.
    let rewrite = !text::str_eq(parts.scheme.as_str(), "https") || parts.has_fragment;
    let (url, parts) = if rewrite {
        let secured = match with_scheme(raw.as_str(), "https") {
            Some(url) => url,
            None => {
                return None;
            },
        };
        let url = match without_fragment(secured.as_str()) {
            Some(url) => url,
            None => {
                return None;
            },
        };
        match parse_url(url.as_str()) {
            Some(parts) => (url, parts),
            None => {
                return None;
            },
        }
    } else {
        (raw, parts)
    };
    if should_skip(skip, parts.host_or_empty()) {
        return None;
    }
    // The slash is taken from the key only: some sites answer otherwise
    // when it is missing from the request.
    let trimmed = text::strip_trailing(parts.path.as_str(), '/');
    if !text::str_eq(trimmed, parts.path.as_str()) {
        match replace_path(url.as_str(), trimmed) {
            Some(key) => Some((url, key)),
            None => None,
        }
    } else {
        let key = url.clone();
        Some((url, key))
    }
}

/// Reads the history for one source.
pub struct ChromiumHistoryScanner {
    pub source_id: i64,
    /// The directory that holds the browser's history.
    pub location: String,
    pub config: ChromiumHistoryConfig,
}

impl ChromiumHistoryScanner {
    pub fn new(source_id: i64, location: String, config: ChromiumHistoryConfig) -> (r: Self)
        ensures
            r.source_id == source_id,
            r.location == location,
            r.config == config,
    {
        ChromiumHistoryScanner { source_id, location, config }
    }

    /// The version of the extraction that this scanner performs.
    pub fn latest_process_version(&self) -> (r: i32)
        ensures
            r == HTML_PROCESS_VERSION,
    {
        HTML_PROCESS_VERSION
    }

    /// The items of a history: one per page, from the first row of the page,
    /// in the order of the rows. In which order they are then requested is
    /// left to the caller, who is well advised to mix them, so that no host
    /// is asked many times in a row.
    pub fn scan(&self, rows: Vec<HistoryRow>) -> (r: Vec<Item>)
        ensures
            r@.len() == visits(self.config.skip@, rows@, rows@.len() as int).len(),
            forall|i: int|
                0 <= i < r@.len() ==> is_visit_item(
                    #[trigger] r@[i],
                    self.source_id,
                    visits(self.config.skip@, rows@, rows@.len() as int)[i],
                ),
    {
        let mut out: Vec<Item> = Vec::new();
        let mut seen = StringHashSet::new();
        let ghost all = rows@;
        let ghost skip = self.config.skip@;
        for row in it: rows
            invariant
                it.seq() == all,
                skip == self.config.skip@,
                seen@ == seen_keys(skip, all, it.index() as int),
                out@.len() == visits(skip, all, it.index() as int).len(),
                forall|i: int|
                    0 <= i < out@.len() ==> is_visit_item(
                        #[trigger] out@[i],
                        self.source_id,
                        visits(skip, all, it.index() as int)[i],
                    ),
        {
            let HistoryRow { url, title, last_visit_time } = row;
            match normalize_visit(&self.config.skip, url) {
                None => {},
                Some((url, key)) => {
                    if seen.contains(key.as_str()) {
                        proof {
                            assert(seen@.insert(key@) == seen@);
                        }
                    } else {
                        seen.insert(key);
                        out.push(
                            Item {
                                id: -1,
                                source_id: self.source_id,
                                external_id: url,
                                hash: None,
                                skipped: None,
                                metadata: ItemMetadata {
                                    name: Some(title),
                                    author: None,
                                    description: None,
                                    mtime: None,
                                    atime: Some(chromium_time_to_unix(last_visit_time)),
                                },
                                content: None,
                                raw_content: None,
                                process_version: HTML_PROCESS_VERSION,
                            },
                        );
                    }
                },
            }
        }
        out
    }
}

} // verus!
