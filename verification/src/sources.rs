//! Configured origins of items and the policy by which a scan decides that
//! an item has changed.

use vstd::prelude::*;
use vstd::string::*;
use crate::text;

pub mod calculate_embeddings;
pub mod chromium_bookmarks;
pub mod chromium_history;
pub mod fs;
pub mod match_existing_items;
pub mod parse_html;
pub mod pipeline;
pub mod read_items;
pub mod reprocess;
pub mod scan;
pub mod scan_outcome;
pub mod update_db;
pub mod urls;

verus! {

/// Coarse kind of a source, as a user selects it.
#[derive(Debug, Clone, Copy, PartialEq, Eq, Structural)]
pub enum SourceTypeTag {
    /// Local sources
    Local,
    /// Sources that fetch data from the web
    Web,
    /// Sources that hold bookmarks
    Bookmarks,
}

/// Settings of a filesystem source.
#[derive(Clone, Debug, PartialEq, Eq)]
pub struct FsSourceConfig {
    /// Paths to include; none means all.
    pub globs: Vec<String>,
}

/// Settings of a browser-history source.
#[derive(Clone, Debug, PartialEq, Eq)]
pub struct ChromiumHistoryConfig {
    /// Domains that are never fetched.
    pub skip: Vec<String>,
}

/// Settings of a bookmarks source.
#[derive(Clone, Debug, PartialEq, Eq)]
pub struct ChromiumBookmarksConfig {
    /// Domains that are never fetched.
    pub skip: Vec<String>,
}

#[derive(Debug, Clone, PartialEq, Eq)]
pub enum SourceConfig {
    Fs(FsSourceConfig),
    ChromiumHistory(ChromiumHistoryConfig),
    ChromiumBookmarks(ChromiumBookmarksConfig),
}

impl SourceConfig {
    /// Which configurations a tag selects: filesystem sources are local,
    /// history and bookmarks are on the web, and bookmarks are bookmarks too.
    pub open spec fn tag_matches(&self, tag: SourceTypeTag) -> bool {
        match (*self, tag) {
            (SourceConfig::Fs(_), SourceTypeTag::Local) => true,
            (SourceConfig::ChromiumHistory(_), SourceTypeTag::Web) => true,
            (SourceConfig::ChromiumBookmarks(_), SourceTypeTag::Web) => true,
            (SourceConfig::ChromiumBookmarks(_), SourceTypeTag::Bookmarks) => true,
            _ => false,
        }
    }

    #[verifier::when_used_as_spec(tag_matches)]
    pub fn matches_tag(&self, tag: SourceTypeTag) -> (r: bool)
        ensures
            r == self.tag_matches(tag),
    {
        match (self, tag) {
            (SourceConfig::Fs(_), SourceTypeTag::Local) => true,
            (SourceConfig::ChromiumHistory(_), SourceTypeTag::Web) => true,
            (SourceConfig::ChromiumBookmarks(_), SourceTypeTag::Web) => true,
            (SourceConfig::ChromiumBookmarks(_), SourceTypeTag::Bookmarks) => true,
            _ => false,
        }
    }
}

/// Where a source stands in its scan cycle.
#[derive(Debug, Clone, PartialEq, Eq)]
pub enum SourceStatus {
    Indexing { started_at: i64 },
    Ready { scanned: u32, duration: u32 },
    Error { error: String },
}

/// How the reconciler decides that an item has changed.
#[derive(Debug, Copy, Clone, PartialEq, Eq, Structural)]
pub enum ItemCompareStrategy {
    /// Compare the modified time and the content of the item.
    MTimeAndContent,
    /// Compare only the modified time of the item
    MTime,
    /// Compare the content of the item
    Content,
    /// Always consider the item changed
    Force,
}

impl Default for ItemCompareStrategy {
    fn default() -> (r: Self)
        ensures
            r == ItemCompareStrategy::MTimeAndContent,
    {
        ItemCompareStrategy::MTimeAndContent
    }
}

impl ItemCompareStrategy {
    pub open spec fn compares_mtime(&self) -> bool {
        *self == ItemCompareStrategy::MTimeAndContent || *self == ItemCompareStrategy::MTime
    }

    pub open spec fn compares_content(&self) -> bool {
        *self == ItemCompareStrategy::MTimeAndContent || *self == ItemCompareStrategy::Content
    }

    #[verifier::when_used_as_spec(compares_mtime)]
    pub fn should_compare_mtime(&self) -> (r: bool)
        ensures
            r == self.compares_mtime(),
    {
        match self {
            ItemCompareStrategy::MTimeAndContent | ItemCompareStrategy::MTime => true,
            ItemCompareStrategy::Content | ItemCompareStrategy::Force => false,
        }
    }

    #[verifier::when_used_as_spec(compares_content)]
    pub fn should_compare_content(&self) -> (r: bool)
        ensures
            r == self.compares_content(),
    {
        match self {
            ItemCompareStrategy::MTimeAndContent | ItemCompareStrategy::Content => true,
            ItemCompareStrategy::MTime | ItemCompareStrategy::Force => false,
        }
    }

    /// The name under which the strategy is stored.
    pub open spec fn name(self) -> Seq<char> {
        match self {
            ItemCompareStrategy::MTimeAndContent => "m_time_and_content"@,
            ItemCompareStrategy::MTime => "m_time"@,
            ItemCompareStrategy::Content => "content"@,
            ItemCompareStrategy::Force => "force"@,
        }
    }

    /// The strategy stored under `s`, if `s` is the name of one.
    pub open spec fn named(s: Seq<char>) -> Option<ItemCompareStrategy> {
        if s == "m_time_and_content"@ {
            Some(ItemCompareStrategy::MTimeAndContent)
        } else if s == "m_time"@ {
            Some(ItemCompareStrategy::MTime)
        } else if s == "content"@ {
            Some(ItemCompareStrategy::Content)
        } else if s == "force"@ {
            Some(ItemCompareStrategy::Force)
        } else {
            None
        }
    }

    pub fn to_string(&self) -> (s: String)
        ensures
            s@ == self.name(),
    {
        match self {
            ItemCompareStrategy::MTimeAndContent => String::from_str("m_time_and_content"),
            ItemCompareStrategy::MTime => String::from_str("m_time"),
            ItemCompareStrategy::Content => String::from_str("content"),
            ItemCompareStrategy::Force => String::from_str("force"),
        }
    }

    pub fn parse(s: &str) -> (r: Option<ItemCompareStrategy>)
        ensures
            r == ItemCompareStrategy::named(s@),
    {
        if text::str_eq(s, "m_time_and_content") {
            Some(ItemCompareStrategy::MTimeAndContent)
        } else if text::str_eq(s, "m_time") {
            Some(ItemCompareStrategy::MTime)
        } else if text::str_eq(s, "content") {
            Some(ItemCompareStrategy::Content)
        } else if text::str_eq(s, "force") {
            Some(ItemCompareStrategy::Force)
        } else {
            None
        }
    }

    /// Every strategy is read back from its own name.
    pub proof fn lemma_name_round_trip(self)
        ensures
            ItemCompareStrategy::named(self.name()) == Some(self),
    {
        reveal_strlit("m_time_and_content");
        reveal_strlit("m_time");
        reveal_strlit("content");
        reveal_strlit("force");
        assert("m_time_and_content"@.len() == 18);
        assert("m_time"@.len() == 6);
        assert("content"@.len() == 7);
        assert("force"@.len() == 5);
    }
}

/// A reading of `x` as an unsigned 32-bit number, keeping the low 32 bits.
pub open spec fn low_u32(x: int) -> int {
    x % 0x1_0000_0000
}

/// A configured origin of items.
#[derive(Debug, Clone, PartialEq, Eq)]
pub struct Source {
    pub id: i64,
    pub name: String,
    pub config: SourceConfig,
    /// Path or URL prefix under which the items live.
    pub location: String,
    pub compare_strategy: ItemCompareStrategy,
    pub status: SourceStatus,
    /// Start of the latest scan, in seconds since the Unix epoch.
    pub last_indexed: i64,
    /// Counts the scans; stamped on every row a scan touches.
    pub index_version: i64,
}

impl Source {
    /// The strategy a scan uses: the caller's override, or else the source's own.
    pub fn effective_strategy(&self, override_compare_strategy: Option<ItemCompareStrategy>) -> (r:
        ItemCompareStrategy)
        ensures
            r == match override_compare_strategy {
                Some(s) => s,
                None => self.compare_strategy,
            },
    {
        match override_compare_strategy {
            Some(s) => s,
            None => self.compare_strategy,
        }
    }

    /// Starts a scan at time `now`: the version advances by one and the
    /// status becomes `Indexing`, whatever it was.
    pub fn begin_scan(&mut self, now: i64)
        requires
            old(self).index_version < i64::MAX,
        ensures
            final(self).index_version == old(self).index_version + 1,
            final(self).last_indexed == now,
            final(self).status == (SourceStatus::Indexing { started_at: now }),
            final(self).id == old(self).id,
            final(self).name == old(self).name,
            final(self).config == old(self).config,
            final(self).location == old(self).location,
            final(self).compare_strategy == old(self).compare_strategy,
    {
        self.index_version = self.index_version + 1;
        self.last_indexed = now;
        self.status = SourceStatus::Indexing { started_at: now };
    }

    /// Ends the scan that began at `last_indexed`. A scan in which a stage
    /// failed leaves the source in `Error` with the failure's message; any
    /// other leaves it `Ready` with the count of scanned items and the
    /// seconds elapsed, each kept to its low 32 bits.
    pub fn finish_scan(&mut self, now: i64, scanned: u64, failure: Option<String>)
        ensures
            final(self).status == match failure {
                Some(message) => SourceStatus::Error { error: message },
                None => SourceStatus::Ready {
                    scanned: low_u32(scanned as int) as u32,
                    duration: low_u32(now - old(self).last_indexed) as u32,
                },
            },
            final(self).index_version == old(self).index_version,
            final(self).last_indexed == old(self).last_indexed,
            final(self).id == old(self).id,
            final(self).name == old(self).name,
            final(self).config == old(self).config,
            final(self).location == old(self).location,
            final(self).compare_strategy == old(self).compare_strategy,
    {
        match failure {
            Some(message) => {
                self.status = SourceStatus::Error { error: message };
            },
            None => {
                let scanned32: u32 = (scanned % 0x1_0000_0000) as u32;
                let elapsed: i128 = now as i128 - self.last_indexed as i128;
                let shifted: i128 = elapsed + 0x1_0000_0000_0000_0000;
                let duration: u32 = (shifted % 0x1_0000_0000) as u32;
                assert(shifted % 0x1_0000_0000 == low_u32(elapsed as int)) by {
                    assert(0x1_0000_0000_0000_0000int == 0x1_0000_0000 * 0x1_0000_0000int);
                    vstd::arithmetic::div_mod::lemma_mod_multiples_vanish(
                        0x1_0000_0000,
                        elapsed as int,
                        0x1_0000_0000,
                    );
                }
                self.status = SourceStatus::Ready { scanned: scanned32, duration };
            },
        }
    }
}

} // verus!
