//! The files under a directory as a source of items.

use vstd::prelude::*;
use vstd::string::*;
use vstd::utf8::decode_utf8;
use vstd::utf8::encode_utf8;
use vstd::utf8::valid_utf8;
use crate::Item;
use crate::ItemMetadata;
use crate::sources::FsSourceConfig;
use crate::sources::parse_html::compress;
use crate::sources::parse_html::decompress_text;
use crate::sources::parse_html::zstd_content;
use crate::sources::parse_html::zstd_frame;
use crate::sources::parse_html::ReadError;
use crate::sources::parse_html::COMPRESSION_LEVEL;
use crate::sources::pipeline::SourceScannerReadResult;
use crate::text;

verus! {

#[verifier::external_type_specification]
#[verifier::external_body]
pub struct ExGlobSet(globset::GlobSet);

#[verifier::external_type_specification]
#[verifier::external_body]
pub struct ExGlobSetBuilder(globset::GlobSetBuilder);

/// The patterns of the globs that were added to a builder, in order.
pub uninterp spec fn builder_patterns(builder: globset::GlobSetBuilder) -> Seq<Seq<char>>;

/// The patterns of the globs from which a set was built, in order.
pub uninterp spec fn glob_patterns(set: globset::GlobSet) -> Seq<Seq<char>>;

/// Whether `globset` accepts `pattern` as a glob.
pub uninterp spec fn glob_valid(pattern: Seq<char>) -> bool;

/// Whether `globset` builds a set of the globs `patterns`.
pub uninterp spec fn globs_build(patterns: Seq<Seq<char>>) -> bool;

/// Whether, by `globset`, any of the globs `patterns` matches `path`.
pub uninterp spec fn globs_match(patterns: Seq<Seq<char>>, path: Seq<char>) -> bool;

/// The characters of each of `texts`.
pub open spec fn texts_of(texts: Seq<String>) -> Seq<Seq<char>> {
    texts.map_values(|t: String| t@)
}

/// `globset::GlobSetBuilder::new`: a builder to which nothing was added.
#[verifier::external_body]
fn new_glob_builder() -> (r: globset::GlobSetBuilder)
    ensures
        builder_patterns(r) == Seq::<Seq<char>>::empty(),
{
    globset::GlobSetBuilder::new()
}

/// `globset::Glob::new` on the pattern and, where that gives a glob,
/// `globset::GlobSetBuilder::add` of it. The answer says whether the pattern
/// is a glob; one that is none leaves the builder as it was.
#[verifier::external_body]
fn add_glob(builder: &mut globset::GlobSetBuilder, pattern: &str) -> (r: bool)
    ensures
        r == glob_valid(pattern@),
        builder_patterns(*final(builder)) == if r {
            builder_patterns(*old(builder)).push(pattern@)
        } else {
            builder_patterns(*old(builder))
        },
{
    match globset::Glob::new(pattern) {
        Ok(glob) => {
            builder.add(glob);
            true
        },
        Err(_) => false,
    }
}

/// `globset::GlobSetBuilder::build`: a set of the globs that were added,
/// or `None` where none can be built.
#[verifier::external_body]
fn build_glob_set(builder: &globset::GlobSetBuilder) -> (r: Option<globset::GlobSet>)
    ensures
        match r {
            Some(set) => globs_build(builder_patterns(*builder)) && glob_patterns(set)
                == builder_patterns(*builder),
            None => !globs_build(builder_patterns(*builder)),
        },
{
    builder.build().ok()
}

/// `globset::GlobSet::is_match`, on a set that was built by
/// [`build_glob_set`].
#[verifier::external_body]
fn glob_set_is_match(set: &globset::GlobSet, path: &str) -> (r: bool)
    ensures
        r == globs_match(glob_patterns(*set), path@),
{
    set.is_match(path)
}

/// Whether every one of `patterns` is a glob.
pub open spec fn all_valid(patterns: Seq<Seq<char>>) -> bool {
    forall|i: int| 0 <= i < patterns.len() ==> glob_valid(#[trigger] patterns[i])
}

/// The globs by which files are chosen, built into a set. A filter is made
/// by [`compile_globs`] alone, so that its patterns, read with the default
/// options, are all that the set was built from.
pub struct PathFilter {
    set: globset::GlobSet,
}

impl PathFilter {
    /// The patterns of the filter, in order.
    pub closed spec fn patterns(&self) -> Seq<Seq<char>> {
        glob_patterns(self.set)
    }

    /// Whether any glob of the filter matches `path`.
    pub fn is_match(&self, path: &str) -> (r: bool)
        ensures
            r == globs_match(self.patterns(), path@),
    {
        glob_set_is_match(&self.set, path)
    }
}

/// Builds the filter of the globs `patterns`, or `None` where one of them
/// is no glob or no set can be built of them.
pub fn compile_globs(patterns: &Vec<String>) -> (r: Option<PathFilter>)
    ensures
        match r {
            Some(filter) => {
                &&& all_valid(texts_of(patterns@))
                &&& globs_build(texts_of(patterns@))
                &&& filter.patterns() == texts_of(patterns@)
            },
            None => !all_valid(texts_of(patterns@)) || !globs_build(texts_of(patterns@)),
        },
{
    let mut builder = new_glob_builder();
    let mut i: usize = 0;
    while i < patterns.len()
        invariant
            i <= patterns.len(),
            builder_patterns(builder) == texts_of(patterns@).take(i as int),
            forall|k: int| 0 <= k < i ==> glob_valid(#[trigger] texts_of(patterns@)[k]),
        decreases patterns.len() - i,
    {
        proof {
            assert(texts_of(patterns@).take(i + 1) == texts_of(patterns@).take(i as int).push(
                patterns@[i as int]@,
            ));
            assert(texts_of(patterns@)[i as int] == patterns@[i as int]@);
        }
        if !add_glob(&mut builder, patterns[i].as_str()) {
            return None;
        }
        i = i + 1;
    }
    proof {
        assert(texts_of(patterns@).take(patterns.len() as int) == texts_of(patterns@));
    }
    match build_glob_set(&builder) {
        Some(set) => Some(PathFilter { set }),
        None => None,
    }
}

/// What a walk of the directory tells of one entry. Times are whole seconds
/// since the Unix epoch.
#[derive(Debug, Clone, PartialEq, Eq)]
pub struct FileEntry {
    pub path: String,
    /// Whether the entry is a regular file.
    pub is_file: bool,
    pub mtime: Option<i64>,
    pub atime: Option<i64>,
}

/// What the front matter of a file says, and the text below it.
#[derive(Debug, Clone, PartialEq, Eq)]
pub struct FrontMatter {
    pub title: Option<String>,
    pub author: Option<String>,
    pub name: Option<String>,
    pub summary: Option<String>,
    pub description: Option<String>,
    /// The text of the file without its front matter.
    pub content: String,
}

/// The first of two values that is there.
pub open spec fn first_of(a: Option<String>, b: Option<String>) -> Option<String> {
    match a {
        Some(_) => a,
        None => b,
    }
}

/// Scans the files of one source.
pub struct FileScanner {
    pub source_id: i64,
    /// The directory under which the files lie.
    pub location: String,
    pub config: FsSourceConfig,
}

/// The patterns by which files are chosen: those that are configured, or
/// the one that matches everything where none is.
pub open spec fn chosen_patterns(globs: Seq<String>) -> Seq<Seq<char>> {
    if globs.len() == 0 {
        seq!["*"@]
    } else {
        texts_of(globs)
    }
}

impl FileScanner {
    /// The version of the extraction that this scanner performs.
    pub fn latest_process_version(&self) -> (r: i32)
        ensures
            r == 0,
    {
        0
    }

    /// Builds the set of globs by which this scanner chooses files, or
    /// `None` where the configured patterns do not make one.
    pub fn globs(&self) -> (r: Option<PathFilter>)
        ensures
            match r {
                Some(filter) => {
                    &&& all_valid(chosen_patterns(self.config.globs@))
                    &&& globs_build(chosen_patterns(self.config.globs@))
                    &&& filter.patterns() == chosen_patterns(self.config.globs@)
                },
                None => !all_valid(chosen_patterns(self.config.globs@)) || !globs_build(
                    chosen_patterns(self.config.globs@),
                ),
            },
    {
        if self.config.globs.len() == 0 {
            let mut all: Vec<String> = Vec::new();
            all.push(String::from_str("*"));
            proof {
                assert(texts_of(all@) == seq!["*"@]);
            }
            compile_globs(&all)
        } else {
            compile_globs(&self.config.globs)
        }
    }

    /// The item of one entry of the walk: a regular file whose path matches
    /// becomes an item that is not yet stored and has the path as key, the
    /// file's times, and no content. Anything else becomes none.
    pub fn visit(&self, globs: &PathFilter, entry: FileEntry) -> (r: Option<Item>)
        ensures
            if entry.is_file && globs_match(globs.patterns(), entry.path@) {
                r == Some(
                    Item {
                        id: -1i64,
                        source_id: self.source_id,
                        external_id: entry.path,
                        hash: None,
                        content: None,
                        raw_content: None,
                        process_version: 0i32,
                        metadata: ItemMetadata {
                            name: None,
                            author: None,
                            description: None,
                            mtime: entry.mtime,
                            atime: entry.atime,
                        },
                        skipped: None,
                    },
                )
            } else {
                r is None
            },
    {
        if !entry.is_file {
            return None;
        }
        if !globs.is_match(entry.path.as_str()) {
            return None;
        }
        Some(
            Item {
                id: -1,
                source_id: self.source_id,
                external_id: entry.path,
                hash: None,
                content: None,
                raw_content: None,
                skipped: None,
                process_version: 0,
                metadata: ItemMetadata {
                    name: None,
                    author: None,
                    description: None,
                    mtime: entry.mtime,
                    atime: entry.atime,
                },
            },
        )
    }
}

/// Whether reading a file leaves the item out: the file could not be read
/// as text, or holds nothing but whitespace.
pub open spec fn omitted(content: Option<String>) -> bool {
    match content {
        Some(c) => text::is_blank(c@),
        None => true,
    }
}

/// Takes over what the front matter says: title or else name as the item's
/// name, description or else summary as its description, the author, and
/// the text below the front matter as content.
pub fn apply_front_matter(item: &mut Item, parsed: FrontMatter)
    ensures
        *final(item) == (Item {
            content: Some(parsed.content),
            metadata: ItemMetadata {
                name: first_of(parsed.title, parsed.name),
                description: first_of(parsed.description, parsed.summary),
                author: parsed.author,
                ..old(item).metadata
            },
            ..*old(item)
        }),
{
    let FrontMatter { title, author, name, summary, description, content } = parsed;
    item.metadata.name = match title {
        Some(t) => Some(t),
        None => name,
    };
    item.metadata.description = match description {
        Some(d) => Some(d),
        None => summary,
    };
    item.metadata.author = author;
    item.content = Some(content);
}

/// Takes over the text of a file. `content` is the file as text, or `None`
/// where it could not be read as text; `parsed` is what the front-matter
/// parser made of `content`, or `None` where the file has no front matter.
///
/// A file that is not text or is blank is omitted. A file with front matter
/// gives the item what the front matter says and the text below it, and
/// keeps the whole file, compressed, as raw content. Any other file is the
/// item's content as it is.
pub fn read_file(item: &mut Item, content: Option<String>, parsed: Option<FrontMatter>) -> (r: Result<
    SourceScannerReadResult,
    ReadError,
>)
    ensures
        if omitted(content) {
            r == Ok::<_, ReadError>(SourceScannerReadResult::Omit) && *final(item) == *old(item)
        } else {
            match parsed {
                None => {
                    &&& r == Ok::<_, ReadError>(SourceScannerReadResult::Found)
                    &&& *final(item) == (Item { content, ..*old(item) })
                },
                Some(front) => {
                    let with_front = Item {
                        content: Some(front.content),
                        metadata: ItemMetadata {
                            name: first_of(front.title, front.name),
                            description: first_of(front.description, front.summary),
                            author: front.author,
                            ..old(item).metadata
                        },
                        ..*old(item)
                    };
                    match zstd_frame(encode_utf8(content->0@), COMPRESSION_LEVEL) {
                        Some(frame) => {
                            &&& r == Ok::<_, ReadError>(SourceScannerReadResult::Found)
                            &&& final(item).raw_content matches Some(stored) && stored@ == frame
                            &&& (Item { raw_content: old(item).raw_content, ..*final(item) })
                                == with_front
                        },
                        None => {
                            &&& r == Err::<SourceScannerReadResult, _>(ReadError::Compress)
                            &&& *final(item) == with_front
                        },
                    }
                },
            }
        },
{
    let content = match content {
        Some(c) => c,
        None => {
            return Ok(SourceScannerReadResult::Omit);
        },
    };
    if text::blank(content.as_str()) {
        return Ok(SourceScannerReadResult::Omit);
    }
    match parsed {
        Some(front) => {
            apply_front_matter(item, front);
            match compress(content.as_str().as_bytes()) {
                Some(frame) => {
                    item.raw_content = Some(frame);
                },
                None => {
                    return Err(ReadError::Compress);
                },
            }
        },
        None => {
            item.content = Some(content);
        },
    }
    Ok(SourceScannerReadResult::Found)
}

/// The text from which an item is derived again: its raw content read back
/// as text, or else its content, or none where it has neither.
pub fn reprocess_text(item: &Item) -> (r: Result<Option<String>, ReadError>)
    ensures
        match item.raw_content {
            Some(frame) => match zstd_content(frame@) {
                None => r == Err::<Option<String>, _>(ReadError::Decompress),
                Some(raw) => if valid_utf8(raw) {
                    r matches Ok(Some(t)) && t@ == decode_utf8(raw)
                } else {
                    r == Err::<Option<String>, _>(ReadError::NotText)
                },
            },
            None => r == Ok::<_, ReadError>(item.content),
        },
{
    match &item.raw_content {
        Some(frame) => match decompress_text(frame.as_slice()) {
            Ok(t) => Ok(Some(t)),
            Err(e) => Err(e),
        },
        None => match &item.content {
            Some(c) => Ok(Some(c.clone())),
            None => Ok(None),
        },
    }
}

/// Derives an item again from its text. `parsed` is what the front-matter
/// parser made of the text from [`reprocess_text`]. With front matter the
/// item takes over what it says and is found; without it is unchanged.
pub fn reprocess(item: &mut Item, parsed: Option<FrontMatter>) -> (r: SourceScannerReadResult)
    ensures
        match parsed {
            Some(front) => {
                &&& r == SourceScannerReadResult::Found
                &&& *final(item) == (Item {
                    content: Some(front.content),
                    metadata: ItemMetadata {
                        name: first_of(front.title, front.name),
                        description: first_of(front.description, front.summary),
                        author: front.author,
                        ..old(item).metadata
                    },
                    ..*old(item)
                })
            },
            None => r == SourceScannerReadResult::Unchanged && *final(item) == *old(item),
        },
{
    match parsed {
        Some(front) => {
            apply_front_matter(item, front);
            SourceScannerReadResult::Found
        },
        None => SourceScannerReadResult::Unchanged,
    }
}

} // verus!
