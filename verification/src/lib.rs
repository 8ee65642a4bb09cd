//! Core logic of a local semantic-search engine: the stages of the ingestion
//! pipeline, the batching sender that feeds them, and the merging of search
//! results, each with a machine-checked contract.

use vstd::prelude::*;
use vstd::string::*;

pub mod app_state;
pub mod batch_sender;
pub mod cmd;
pub mod db;
pub mod hiding;
pub mod highlight;
pub mod model;
pub mod search;
pub mod sources;
pub mod text;
pub mod time_tracker;

verus! {

/// Descriptive fields of an item. Timestamps are whole seconds since the Unix
/// epoch, UTC.
#[derive(Debug, Clone, PartialEq, Eq)]
pub struct ItemMetadata {
    pub name: Option<String>,
    pub author: Option<String>,
    pub description: Option<String>,
    pub mtime: Option<i64>,
    pub atime: Option<i64>,
}

impl Default for ItemMetadata {
    fn default() -> (r: Self)
        ensures
            r.name is None,
            r.author is None,
            r.description is None,
            r.mtime is None,
            r.atime is None,
    {
        ItemMetadata { name: None, author: None, description: None, mtime: None, atime: None }
    }
}

/// Why an item is intentionally left out of the index.
#[derive(Clone, Copy, Debug, PartialEq, Eq, Structural)]
pub enum SkipReason {
    NotFound,
    FetchError,
    Unauthorized,
    /// The item redirected elsewhere and redirects are not followed.
    Redirected,
    NoContent,
}

impl SkipReason {
    /// Whether the reason suppresses future refetch attempts.
    pub open spec fn is_permanent(&self) -> bool {
        !(self is NoContent)
    }

    #[verifier::when_used_as_spec(is_permanent)]
    pub fn permanent(&self) -> (r: bool)
        ensures
            r == self.is_permanent(),
    {
        match self {
            SkipReason::NotFound => true,
            SkipReason::FetchError => true,
            SkipReason::Unauthorized => true,
            SkipReason::Redirected => true,
            SkipReason::NoContent => false,
        }
    }

    /// The name under which the reason is stored.
    pub open spec fn name(self) -> Seq<char> {
        match self {
            SkipReason::NotFound => "not_found"@,
            SkipReason::FetchError => "fetch_error"@,
            SkipReason::Unauthorized => "unauthorized"@,
            SkipReason::Redirected => "redirected"@,
            SkipReason::NoContent => "no_content"@,
        }
    }

    /// The reason stored under `s`, if `s` is the name of one.
    pub open spec fn named(s: Seq<char>) -> Option<SkipReason> {
        if s == "not_found"@ {
            Some(SkipReason::NotFound)
        } else if s == "fetch_error"@ {
            Some(SkipReason::FetchError)
        } else if s == "unauthorized"@ {
            Some(SkipReason::Unauthorized)
        } else if s == "redirected"@ {
            Some(SkipReason::Redirected)
        } else if s == "no_content"@ {
            Some(SkipReason::NoContent)
        } else {
            None
        }
    }

    pub fn to_string(&self) -> (s: String)
        ensures
            s@ == self.name(),
    {
        match self {
            SkipReason::NotFound => String::from_str("not_found"),
            SkipReason::FetchError => String::from_str("fetch_error"),
            SkipReason::Unauthorized => String::from_str("unauthorized"),
            SkipReason::Redirected => String::from_str("redirected"),
            SkipReason::NoContent => String::from_str("no_content"),
        }
    }

    pub fn parse(s: &str) -> (r: Option<SkipReason>)
        ensures
            r == SkipReason::named(s@),
    {
        if text::str_eq(s, "not_found") {
            Some(SkipReason::NotFound)
        } else if text::str_eq(s, "fetch_error") {
            Some(SkipReason::FetchError)
        } else if text::str_eq(s, "unauthorized") {
            Some(SkipReason::Unauthorized)
        } else if text::str_eq(s, "redirected") {
            Some(SkipReason::Redirected)
        } else if text::str_eq(s, "no_content") {
            Some(SkipReason::NoContent)
        } else {
            None
        }
    }

    /// Every reason is read back from its own name.
    pub proof fn lemma_name_round_trip(self)
        ensures
            SkipReason::named(self.name()) == Some(self),
    {
        reveal_strlit("not_found");
        reveal_strlit("fetch_error");
        reveal_strlit("unauthorized");
        reveal_strlit("redirected");
        reveal_strlit("no_content");
        assert("not_found"@.len() == 9);
        assert("fetch_error"@.len() == 11);
        assert("unauthorized"@.len() == 12);
        assert("redirected"@.len() == 10);
        assert("no_content"@[1] == 'o');
        assert("redirected"@[1] == 'e');
    }
}

/// An identified piece of indexable content.
#[derive(Debug, Clone, PartialEq, Eq)]
pub struct Item {
    /// Stable identity once persisted; `-1` before.
    pub id: i64,
    pub source_id: i64,
    /// The natural key within the source: a path or a URL.
    pub external_id: String,
    /// Opaque freshness token, such as an HTTP ETag.
    pub hash: Option<String>,
    /// Extracted, searchable text.
    pub content: Option<String>,
    /// The bytes as they were read, compressed, kept for reprocessing.
    pub raw_content: Option<Vec<u8>>,
    /// Version of the extraction that produced `content`.
    pub process_version: i32,
    pub metadata: ItemMetadata,
    pub skipped: Option<SkipReason>,
}

} // verus!
