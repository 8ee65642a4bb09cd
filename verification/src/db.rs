//! Rows of the store as the engine's values.

use vstd::prelude::*;
use vstd::string::*;
use crate::Item;
use crate::ItemMetadata;
use crate::SkipReason;
use crate::sources::chromium_bookmarks::FIRST_SECOND;
use crate::sources::chromium_bookmarks::LAST_SECOND;
use crate::sources::ItemCompareStrategy;
use crate::sources::Source;
use crate::sources::SourceConfig;
use crate::sources::SourceStatus;

verus! {

/// Why a row is not a value of the engine.
#[derive(Debug, Clone, Copy, PartialEq, Eq, Structural)]
pub enum DbError {
    /// A time lies outside the years -9999 to 9999.
    TimeOutOfRange,
    /// The name of a skip reason is not known.
    UnknownSkipReason,
    /// The name of a compare strategy is not known.
    UnknownCompareStrategy,
}

impl DbError {
    pub open spec fn message(self) -> Seq<char> {
        match self {
            DbError::TimeOutOfRange => "Query error: time out of range"@,
            DbError::UnknownSkipReason => "Query error: unknown skip reason"@,
            DbError::UnknownCompareStrategy => "Query error: unknown compare strategy"@,
        }
    }

    pub fn to_string(&self) -> (s: String)
        ensures
            s@ == self.message(),
    {
        match self {
            DbError::TimeOutOfRange => String::from_str("Query error: time out of range"),
            DbError::UnknownSkipReason => String::from_str("Query error: unknown skip reason"),
            DbError::UnknownCompareStrategy => String::from_str(
                "Query error: unknown compare strategy",
            ),
        }
    }
}

/// The columns of a row of the table of items, in the order in which they
/// are read.
#[derive(Debug, Clone, PartialEq, Eq)]
pub struct ItemColumns {
    pub id: i64,
    pub source_id: i64,
    pub external_id: String,
    pub hash: Option<String>,
    pub content: Option<String>,
    pub raw_content: Option<Vec<u8>>,
    pub process_version: i32,
    pub name: Option<String>,
    pub author: Option<String>,
    pub description: Option<String>,
    pub modified: Option<i64>,
    pub last_accessed: Option<i64>,
    pub skipped: Option<String>,
}

/// Whether a stored time is a second of the years -9999 to 9999.
pub open spec fn time_in_range(time: Option<i64>) -> bool {
    match time {
        Some(t) => FIRST_SECOND <= t <= LAST_SECOND,
        None => true,
    }
}

/// The skip reason that a row names, or `None` where it names one that is
/// not known.
pub open spec fn row_reason(skipped: Option<String>) -> Option<Option<SkipReason>> {
    match skipped {
        Some(name) => match SkipReason::named(name@) {
            Some(reason) => Some(Some(reason)),
            None => None,
        },
        None => Some(None),
    }
}

fn check_time(time: Option<i64>) -> (r: bool)
    ensures
        r == time_in_range(time),
{
    match time {
        Some(t) => FIRST_SECOND <= t && t <= LAST_SECOND,
        None => true,
    }
}

/// Reads an item from its row. A time out of range is turned down first,
/// the modification before the access, then a skip reason that is not
/// known.
pub fn deserialize_item_row(row: ItemColumns) -> (r: Result<Item, DbError>)
    ensures
        r == if !time_in_range(row.modified) || !time_in_range(row.last_accessed) {
            Err::<Item, _>(DbError::TimeOutOfRange)
        } else {
            match row_reason(row.skipped) {
                None => Err::<Item, _>(DbError::UnknownSkipReason),
                Some(skipped) => Ok::<_, DbError>(
                    Item {
                        id: row.id,
                        source_id: row.source_id,
                        external_id: row.external_id,
                        hash: row.hash,
                        content: row.content,
                        raw_content: row.raw_content,
                        process_version: row.process_version,
                        metadata: ItemMetadata {
                            name: row.name,
                            author: row.author,
                            description: row.description,
                            mtime: row.modified,
                            atime: row.last_accessed,
                        },
                        skipped,
                    },
                ),
            }
        },
{
    if !check_time(row.modified) || !check_time(row.last_accessed) {
        return Err(DbError::TimeOutOfRange);
    }
    let skipped = match &row.skipped {
        Some(name) => match SkipReason::parse(name.as_str()) {
            Some(reason) => Some(reason),
            None => {
                return Err(DbError::UnknownSkipReason);
            },
        },
        None => None,
    };
    Ok(
        Item {
            id: row.id,
            source_id: row.source_id,
            external_id: row.external_id,
            hash: row.hash,
            content: row.content,
            raw_content: row.raw_content,
            process_version: row.process_version,
            metadata: ItemMetadata {
                name: row.name,
                author: row.author,
                description: row.description,
                mtime: row.modified,
                atime: row.last_accessed,
            },
            skipped,
        },
    )
}

/// The columns of a row of the table of sources, but for configuration and
/// status, which are stored as documents and read elsewhere.
#[derive(Debug, Clone, PartialEq, Eq)]
pub struct SourceColumns {
    pub id: i64,
    pub name: String,
    pub location: String,
    pub compare_strategy: String,
    pub last_indexed: i64,
    pub index_version: i64,
}

/// Reads a source from its row, with the configuration and the status that
/// were read from their documents. A time of the last scan that is out of
/// range is taken to be `now`.
pub fn source_from_row(row: SourceColumns, config: SourceConfig, status: SourceStatus, now: i64) -> (r:
    Result<Source, DbError>)
    ensures
        r == match ItemCompareStrategy::named(row.compare_strategy@) {
            None => Err::<Source, _>(DbError::UnknownCompareStrategy),
            Some(compare_strategy) => Ok::<_, DbError>(
                Source {
                    id: row.id,
                    name: row.name,
                    config,
                    location: row.location,
                    compare_strategy,
                    status,
                    last_indexed: if FIRST_SECOND <= row.last_indexed <= LAST_SECOND {
                        row.last_indexed
                    } else {
                        now
                    },
                    index_version: row.index_version,
                },
            ),
        },
{
    let compare_strategy = match ItemCompareStrategy::parse(row.compare_strategy.as_str()) {
        Some(s) => s,
        None => {
            return Err(DbError::UnknownCompareStrategy);
        },
    };
    let last_indexed = if FIRST_SECOND <= row.last_indexed && row.last_indexed <= LAST_SECOND {
        row.last_indexed
    } else {
        now
    };
    Ok(
        Source {
            id: row.id,
            name: row.name,
            config,
            location: row.location,
            compare_strategy,
            status,
            last_indexed,
            index_version: row.index_version,
        },
    )
}

} // verus!
