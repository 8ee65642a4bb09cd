//! The commands of the front end, and what each of them decides before
//! anything is read or written.

use vstd::prelude::*;
use vstd::string::*;
use crate::sources::ItemCompareStrategy;
use crate::sources::Source;
use crate::sources::SourceConfig;
use crate::sources::SourceStatus;
use crate::sources::SourceTypeTag;
use crate::text;

verus! {

/// Add a term to be matched by the search command
#[derive(Debug)]
pub struct AddArgs {
    /// The term to add
    pub term: String,
}

#[derive(Debug)]
pub struct HideArgs {
    /// The ID of the item to hide
    pub id: i64,
    /// Set to unhide the item instead
    pub unhide: bool,
}

#[derive(Debug)]
pub struct SetArgs {
    pub model: crate::model::SentenceEmbeddingsModelType,
}

#[derive(Debug)]
pub enum ModelCommand {
    /// Choose the model
    Choose(SetArgs),
}

#[derive(Debug)]
pub struct ModelArgs {
    pub command: ModelCommand,
}

#[derive(Debug)]
pub struct PrintArgs {
    /// The ID of the item to print
    pub id: i64,
    /// Print the raw content instead of the parsed content
    pub raw: bool,
}

#[derive(Debug)]
pub struct SearchArgs {
    /// The query to search for
    pub query: Option<String>,
    /// Find items that are most similar to the item with this ID.
    pub like: Option<i64>,
    /// Search only in the specified source
    pub source: Option<String>,
    /// Search only sources of a particular type
    pub source_type: Option<SourceTypeTag>,
    /// Return this number of search results
    pub num_results: usize,
}

#[derive(Debug)]
pub struct FsSourceTypeArgs {
    /// The location of the source
    pub location: String,
    /// The globs for files to include
    pub globs: Vec<String>,
}

#[derive(Debug)]
pub struct BrowserHistorySourceTypeArgs {
    /// The directory containing the history database
    pub location: String,
    /// Domains that should be skipped.
    pub skip: Vec<String>,
}

#[derive(Debug)]
pub struct BookmarksSourceTypeArgs {
    /// The directory containing the bookmarks file
    pub location: String,
    /// Domains that should be skipped.
    pub skip: Vec<String>,
}

#[derive(Debug)]
pub enum SourceTypeArgs {
    /// A filesystem scanner
    Fs(FsSourceTypeArgs),
    /// Read items from the browser history
    BrowserHistory(BrowserHistorySourceTypeArgs),
    Bookmarks(BookmarksSourceTypeArgs),
}

#[derive(Debug)]
pub struct AddSourceArgs {
    /// The name of the source
    pub name: String,
    /// The type of the source, and additional information specific to each source
    pub source_type: SourceTypeArgs,
}

#[derive(Debug)]
pub struct EditSourceArgs {
    /// The name of the source
    pub name: String,
}

#[derive(Debug)]
pub struct RebuildSearchArgs {
    /// The name of the source
    pub name: String,
}

#[derive(Debug)]
pub struct ReprocessArgs {
    /// The name of the source
    pub name: String,
}

#[derive(Debug)]
pub struct ScanSourceArgs {
    /// The name of the source
    pub name: String,
    /// Set to always check by content, even if the dates are the same.
    pub by_content: bool,
    /// Reindex all items, even if they haven't changed.
    pub force: bool,
}

#[derive(Debug)]
pub enum SourceCommand {
    Add(AddSourceArgs),
    Edit(EditSourceArgs),
    RebuildSearch(RebuildSearchArgs),
    Reprocess(ReprocessArgs),
    Scan(ScanSourceArgs),
}

#[derive(Debug)]
pub struct SourceArgs {
    pub command: SourceCommand,
}

#[derive(Debug)]
pub enum Commands {
    /// Manage data sources
    Source(SourceArgs),
    /// Refresh data
    Refresh,
    /// Do a search
    Search(SearchArgs),
    /// Configure the model
    Model(ModelArgs),
    /// Print the content for an item
    Print(PrintArgs),
    /// Hide an item from the search results
    Hide(HideArgs),
}

#[derive(Debug)]
pub struct Args {
    pub command: Option<Commands>,
    /// The database to open, if not the default one.
    pub database: Option<String>,
}

/// Why a command was turned down before it did anything.
#[derive(Debug, Clone, Copy, PartialEq, Eq, Structural)]
pub enum CommandError {
    NotImplemented,
    SourceNotFound,
    NoQuery,
}

impl CommandError {
    pub open spec fn message(self) -> Seq<char> {
        match self {
            CommandError::NotImplemented => "Not implemented yet"@,
            CommandError::SourceNotFound => "Source not found"@,
            CommandError::NoQuery => "No query provided"@,
        }
    }

    pub fn to_string(&self) -> (s: String)
        ensures
            s@ == self.message(),
    {
        match self {
            CommandError::NotImplemented => String::from_str("Not implemented yet"),
            CommandError::SourceNotFound => String::from_str("Source not found"),
            CommandError::NoQuery => String::from_str("No query provided"),
        }
    }
}

/// Index of the first source called `name`, or the number of sources where
/// none is.
pub open spec fn named_position(sources: Seq<Source>, name: Seq<char>) -> int
    decreases sources.len(),
{
    if sources.len() == 0 || sources[0].name@ == name {
        0
    } else {
        1 + named_position(sources.drop_first(), name)
    }
}

pub proof fn lemma_named_position_is(sources: Seq<Source>, name: Seq<char>, n: int)
    requires
        0 <= n <= sources.len(),
        forall|i: int| 0 <= i < n ==> (#[trigger] sources[i]).name@ != name,
        n < sources.len() ==> sources[n].name@ == name,
    ensures
        named_position(sources, name) == n,
    decreases sources.len(),
{
    if n > 0 {
        let rest = sources.drop_first();
        assert(sources[0].name@ != name);
        assert forall|i: int| 0 <= i < n - 1 implies (#[trigger] rest[i]).name@ != name by {
            assert(rest[i] == sources[i + 1]);
        }
        if n < sources.len() {
            assert(rest[n - 1] == sources[n]);
        }
        lemma_named_position_is(rest, name, n - 1);
    }
}

/// Finds a source by its name.
pub fn find_source(sources: &Vec<Source>, name: &str) -> (r: Result<usize, CommandError>)
    ensures
        match r {
            Ok(at) => at == named_position(sources@, name@) && at < sources@.len(),
            Err(e) => e == CommandError::SourceNotFound && named_position(sources@, name@)
                == sources@.len(),
        },
{
    let mut i: usize = 0;
    while i < sources.len()
        invariant
            i <= sources.len(),
            forall|k: int| 0 <= k < i ==> (#[trigger] sources@[k]).name@ != name@,
        decreases sources.len() - i,
    {
        if text::str_eq(sources[i].name.as_str(), name) {
            proof {
                lemma_named_position_is(sources@, name@, i as int);
            }
            return Ok(i);
        }
        i = i + 1;
    }
    proof {
        lemma_named_position_is(sources@, name@, i as int);
    }
    Err(CommandError::SourceNotFound)
}

/// The identities of the first `n` sources that a type selects; of all of
/// them where no type is given.
pub open spec fn typed_ids(sources: Seq<Source>, source_type: Option<SourceTypeTag>, n: int) -> Seq<
    i64,
>
    decreases n,
{
    if n <= 0 {
        Seq::empty()
    } else {
        let before = typed_ids(sources, source_type, n - 1);
        match source_type {
            Some(tag) if !sources[n - 1].config.tag_matches(tag) => before,
            _ => before.push(sources[n - 1].id),
        }
    }
}

/// The sources that a search looks in: the one that is named, which must
/// exist; or else those of the given type; or else all.
pub fn search_sources(sources: &Vec<Source>, args: &SearchArgs) -> (r: Result<
    Vec<i64>,
    CommandError,
>)
    ensures
        match args.source {
            Some(name) => match r {
                Ok(ids) => named_position(sources@, name@) < sources@.len() && ids@
                    == seq![sources@[named_position(sources@, name@)].id],
                Err(e) => e == CommandError::SourceNotFound && named_position(sources@, name@)
                    == sources@.len(),
            },
            None => r matches Ok(ids) && ids@ == typed_ids(
                sources@,
                args.source_type,
                sources@.len() as int,
            ),
        },
{
    match &args.source {
        Some(name) => {
            match find_source(sources, name.as_str()) {
                Ok(at) => {
                    let mut ids: Vec<i64> = Vec::new();
                    ids.push(sources[at].id);
                    Ok(ids)
                },
                Err(e) => Err(e),
            }
        },
        None => {
            let mut ids: Vec<i64> = Vec::new();
            let mut i: usize = 0;
            while i < sources.len()
                invariant
                    i <= sources.len(),
                    ids@ == typed_ids(sources@, args.source_type, i as int),
                decreases sources.len() - i,
            {
                let wanted = match args.source_type {
                    Some(tag) => sources[i].config.matches_tag(tag),
                    None => true,
                };
                if wanted {
                    ids.push(sources[i].id);
                }
                i = i + 1;
            }
            Ok(ids)
        },
    }
}

/// What a search looks for.
#[derive(Debug, Clone, PartialEq, Eq)]
pub enum SearchQuery {
    /// The text to encode.
    Text(String),
    /// The item whose stored vector is the query.
    Like(i64),
}

/// What a search looks for: the text of the query, or else the item to be
/// like; one of them has to be given.
pub fn search_query(query: Option<String>, like: Option<i64>) -> (r: Result<
    SearchQuery,
    CommandError,
>)
    ensures
        r == match (query, like) {
            (Some(text), _) => Ok::<_, CommandError>(SearchQuery::Text(text)),
            (None, Some(id)) => Ok::<_, CommandError>(SearchQuery::Like(id)),
            (None, None) => Err::<SearchQuery, _>(CommandError::NoQuery),
        },
{
    match (query, like) {
        (Some(text), _) => Ok(SearchQuery::Text(text)),
        (None, Some(id)) => Ok(SearchQuery::Like(id)),
        (None, None) => Err(CommandError::NoQuery),
    }
}

/// The strategy that the flags of a scan put in place of the source's own:
/// `force` compares nothing, `by_content` compares the content, and without
/// either the source's own stands.
pub fn scan_strategy(args: &ScanSourceArgs) -> (r: Option<ItemCompareStrategy>)
    ensures
        r == if args.force {
            Some(ItemCompareStrategy::Force)
        } else if args.by_content {
            Some(ItemCompareStrategy::Content)
        } else {
            None::<ItemCompareStrategy>
        },
{
    if args.force {
        Some(ItemCompareStrategy::Force)
    } else if args.by_content {
        Some(ItemCompareStrategy::Content)
    } else {
        None
    }
}

/// A source as it is when it is added at time `now`: not yet stored, never
/// scanned, and compared by time and content.
pub fn new_source(name: String, location: String, config: SourceConfig, now: i64) -> (r: Source)
    ensures
        r == (Source {
            id: 0,
            name,
            config,
            location,
            compare_strategy: ItemCompareStrategy::MTimeAndContent,
            status: SourceStatus::Indexing { started_at: now },
            last_indexed: now,
            index_version: 0,
        }),
{
    Source {
        id: 0,
        name,
        location,
        config,
        compare_strategy: ItemCompareStrategy::MTimeAndContent,
        status: SourceStatus::Indexing { started_at: now },
        last_indexed: now,
        index_version: 0,
    }
}

/// The commands that are known but do nothing yet.
pub open spec fn not_implemented(command: Commands) -> bool {
    match command {
        Commands::Refresh => true,
        Commands::Model(_) => true,
        Commands::Source(args) => args.command is Edit,
        _ => false,
    }
}

/// Turns down the commands that do nothing yet.
pub fn check_command(command: &Commands) -> (r: Result<(), CommandError>)
    ensures
        r == if not_implemented(*command) {
            Err::<(), _>(CommandError::NotImplemented)
        } else {
            Ok::<_, CommandError>(())
        },
{
    match command {
        Commands::Refresh => Err(CommandError::NotImplemented),
        Commands::Model(_) => Err(CommandError::NotImplemented),
        Commands::Source(args) => match &args.command {
            SourceCommand::Edit(_) => Err(CommandError::NotImplemented),
            _ => Ok(()),
        },
        _ => Ok(()),
    }
}

} // verus!
