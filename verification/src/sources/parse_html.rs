//! Reading a page over HTTP: what to ask for, what a response means for the
//! item, and how the article is drawn from the page.
//!
//! The request itself is made outside. It is handed the headers from
//! [`request_headers`], and what comes back goes through
//! [`apply_response_head`] and, where that asks for the body, through
//! [`apply_body`].

use vstd::prelude::*;
use vstd::string::*;
use vstd::utf8::decode_utf8;
use vstd::utf8::encode_utf8;
use vstd::utf8::valid_utf8;
use crate::Item;
use crate::SkipReason;
use crate::sources::ItemCompareStrategy;
use crate::sources::pipeline::FoundItem;
use crate::sources::pipeline::SourceScannerReadResult;
use crate::text;

verus! {

/// The version of the extraction of articles from pages.
pub const HTML_PROCESS_VERSION: i32 = 1;

/// Whether `host` is one of the hosts that are never fetched: sign-in pages
/// and the like, which show up often and never hold searchable content.
pub open spec fn always_skipped(host: Seq<char>) -> bool {
    ||| text::has_suffix(host, "accounts.google.com"@)
    ||| text::has_suffix(host, "ad.doubleclick.net"@)
    ||| text::has_suffix(host, "console.cloud.google.com"@)
    ||| text::has_suffix(host, "console.aws.amazon.com"@)
    ||| text::has_suffix(host, "googleapis.com"@)
}

/// Whether `host` ends in one of the domains in `skip` or in one of those
/// that are always skipped. A domain so covers its subdomains.
pub open spec fn skipped_host(skip: Seq<String>, host: Seq<char>) -> bool {
    (exists|i: int| 0 <= i < skip.len() && text::has_suffix(host, (#[trigger] skip[i])@))
        || always_skipped(host)
}

/// Whether the page on `host` is left out of the scan.
pub fn should_skip(skip: &Vec<String>, host: &str) -> (r: bool)
    ensures
        r == skipped_host(skip@, host@),
{
    let mut i: usize = 0;
    while i < skip.len()
        invariant
            i <= skip.len(),
            forall|j: int| 0 <= j < i ==> !text::has_suffix(host@, (#[trigger] skip@[j])@),
        decreases skip.len() - i,
    {
        if text::ends_with(host, skip[i].as_str()) {
            return true;
        }
        i = i + 1;
    }
    text::ends_with(host, "accounts.google.com") || text::ends_with(host, "ad.doubleclick.net")
        || text::ends_with(host, "console.cloud.google.com") || text::ends_with(
        host,
        "console.aws.amazon.com",
    ) || text::ends_with(host, "googleapis.com")
}

/// Title and text of the article on a page.
#[derive(Debug, Clone, PartialEq, Eq)]
pub struct Article {
    pub title: String,
    pub text: String,
}

/// Why the content of an item could not be derived.
#[derive(Debug, Clone, Copy, PartialEq, Eq, Structural)]
pub enum ReadError {
    /// The stored bytes are not a compressed frame.
    Decompress,
    /// The bytes could not be compressed.
    Compress,
    /// No article could be drawn from the page.
    Extract,
    /// The stored bytes are not text.
    NotText,
}

impl ReadError {
    pub open spec fn message(self) -> Seq<char> {
        match self {
            ReadError::Decompress => "decompressing content"@,
            ReadError::Compress => "compressing content"@,
            ReadError::Extract => "extracting content"@,
            ReadError::NotText => "content is not text"@,
        }
    }

    pub fn to_string(&self) -> (s: String)
        ensures
            s@ == self.message(),
    {
        match self {
            ReadError::Decompress => String::from_str("decompressing content"),
            ReadError::Compress => String::from_str("compressing content"),
            ReadError::Extract => String::from_str("extracting content"),
            ReadError::NotText => String::from_str("content is not text"),
        }
    }
}

/// The date that `httpdate` writes for the time `secs` seconds after the
/// Unix epoch.
pub uninterp spec fn http_date_text(secs: u64) -> Seq<char>;

/// The time, in seconds after the Unix epoch, that `httpdate` reads from a
/// date, or `None` where it reads none.
pub uninterp spec fn http_date_seconds(date: Seq<char>) -> Option<i64>;

/// The title and the text that `readability` draws from the page `raw` found
/// at `url`, or `None` where `url` is no URL or no article is found.
pub uninterp spec fn html_article(url: Seq<char>, raw: Seq<u8>) -> Option<(Seq<char>, Seq<char>)>;

/// The frame into which `zstd` compresses `raw` at `level`, or `None` where
/// it fails.
pub uninterp spec fn zstd_frame(raw: Seq<u8>, level: i32) -> Option<Seq<u8>>;

/// The bytes that `zstd` reads from `frame`, or `None` where `frame` is not
/// a frame.
pub uninterp spec fn zstd_content(frame: Seq<u8>) -> Option<Seq<u8>>;

/// The last second that `httpdate` can write: the end of the year 9999.
pub const HTTP_DATE_END: u64 = 253402300800;

/// `httpdate::fmt_http_date`, which formats a time as an HTTP date. It
/// panics from the year 10000 on, which `requires` leaves out.
#[verifier::external_body]
fn fmt_http_date(secs: u64) -> (r: String)
    requires
        secs < HTTP_DATE_END,
    ensures
        r@ == http_date_text(secs),
{
    httpdate::fmt_http_date(std::time::UNIX_EPOCH + std::time::Duration::from_secs(secs))
}

/// `httpdate::parse_http_date`, which reads the time from an HTTP date, as
/// seconds after the Unix epoch. It reads no time before the epoch.
#[verifier::external_body]
fn parse_http_date(date: &str) -> (r: Option<i64>)
    ensures
        r == http_date_seconds(date@),
{
    let time = httpdate::parse_http_date(date).ok()?;
    let since = time.duration_since(std::time::UNIX_EPOCH).ok()?;
    i64::try_from(since.as_secs()).ok()
}

/// `readability::extractor::extract` on the page `raw`, with `url` parsed by
/// `url::Url::parse` as the page's address.
#[verifier::external_body]
fn extract_article(url: &str, raw: &[u8]) -> (r: Option<Article>)
    ensures
        match r {
            Some(article) => html_article(url@, raw@) == Some((article.title@, article.text@)),
            None => html_article(url@, raw@) is None,
        },
{
    let url = url::Url::parse(url).ok()?;
    let mut cursor = std::io::Cursor::new(raw);
    let product = readability::extractor::extract(&mut cursor, &url).ok()?;
    Some(Article { title: product.title, text: product.text })
}

/// `zstd::encode_all` at the given level.
#[verifier::external_body]
fn zstd_encode(raw: &[u8], level: i32) -> (r: Option<Vec<u8>>)
    ensures
        match r {
            Some(frame) => zstd_frame(raw@, level) == Some(frame@),
            None => zstd_frame(raw@, level) is None,
        },
{
    zstd::encode_all(raw, level).ok()
}

/// `zstd::decode_all`.
#[verifier::external_body]
fn zstd_decode(frame: &[u8]) -> (r: Option<Vec<u8>>)
    ensures
        match r {
            Some(raw) => zstd_content(frame@) == Some(raw@),
            None => zstd_content(frame@) is None,
        },
{
    zstd::decode_all(frame).ok()
}

/// `String::from_utf8`: the text that the bytes encode, where they are
/// valid UTF-8.
#[verifier::external_body]
fn string_from_utf8(bytes: Vec<u8>) -> (r: Option<String>)
    ensures
        r is Some <==> valid_utf8(bytes@),
        r matches Some(s) ==> s@ == decode_utf8(bytes@),
{
    String::from_utf8(bytes).ok()
}

/// The level at which raw content is compressed.
pub const COMPRESSION_LEVEL: i32 = 3;

/// Compresses raw content for storage.
pub fn compress(raw: &[u8]) -> (r: Option<Vec<u8>>)
    ensures
        match r {
            Some(frame) => zstd_frame(raw@, COMPRESSION_LEVEL) == Some(frame@),
            None => zstd_frame(raw@, COMPRESSION_LEVEL) is None,
        },
{
    zstd_encode(raw, COMPRESSION_LEVEL)
}

/// Reads stored raw content back.
pub fn decompress(frame: &[u8]) -> (r: Option<Vec<u8>>)
    ensures
        match r {
            Some(raw) => zstd_content(frame@) == Some(raw@),
            None => zstd_content(frame@) is None,
        },
{
    zstd_decode(frame)
}

/// Reads stored raw content back as text.
pub fn decompress_text(frame: &[u8]) -> (r: Result<String, ReadError>)
    ensures
        match r {
            Ok(s) => zstd_content(frame@) matches Some(raw) && valid_utf8(raw) && s@
                == decode_utf8(raw),
            Err(ReadError::Decompress) => zstd_content(frame@) is None,
            Err(ReadError::NotText) => zstd_content(frame@) matches Some(raw) && !valid_utf8(raw),
            Err(_) => false,
        },
{
    match zstd_decode(frame) {
        None => Err(ReadError::Decompress),
        Some(raw) => match string_from_utf8(raw) {
            Some(s) => Ok(s),
            None => Err(ReadError::NotText),
        },
    }
}

/// Draws the article from the page `raw_content` found at `url`.
pub fn extract_html_article(url: &str, raw_content: &[u8]) -> (r: Result<Article, ReadError>)
    ensures
        match r {
            Ok(article) => html_article(url@, raw_content@) == Some(
                (article.title@, article.text@),
            ),
            Err(e) => e == ReadError::Extract && html_article(url@, raw_content@) is None,
        },
{
    match extract_article(url, raw_content) {
        Some(article) => Ok(article),
        None => Err(ReadError::Extract),
    }
}

/// Whether two items are the same but for what reading may fill in: they
/// agree in identity, source and key.
pub open spec fn same_identity(a: Item, b: Item) -> bool {
    a.id == b.id && a.source_id == b.source_id && a.external_id == b.external_id
}

/// Whether the article differs from what the item holds as name and content.
pub open spec fn article_differs(item: Item, title: Seq<char>, text: Seq<char>) -> bool {
    ||| !(item.metadata.name matches Some(n) && n@ == title)
    ||| !(item.content matches Some(c) && c@ == text)
}

/// Derives name and content of a stored page again from its raw content.
///
/// An item without raw content is unchanged. Raw content that cannot be read
/// back, or from which no article is drawn, is an error. Where the article
/// is what the item holds already the item is unchanged; otherwise the item
/// takes the article's title and text and the current process version, and
/// is found.
pub fn reprocess_html_article(item: &mut Item) -> (r: Result<SourceScannerReadResult, ReadError>)
    ensures
        same_identity(*final(item), *old(item)),
        final(item).hash == old(item).hash,
        final(item).raw_content == old(item).raw_content,
        final(item).skipped == old(item).skipped,
        final(item).metadata.author == old(item).metadata.author,
        final(item).metadata.description == old(item).metadata.description,
        final(item).metadata.mtime == old(item).metadata.mtime,
        final(item).metadata.atime == old(item).metadata.atime,
        !(r matches Ok(SourceScannerReadResult::Found)) ==> *final(item) == *old(item),
        match old(item).raw_content {
            None => r == Ok::<_, ReadError>(SourceScannerReadResult::Unchanged),
            Some(frame) => match zstd_content(frame@) {
                None => r == Err::<SourceScannerReadResult, _>(ReadError::Decompress),
                Some(raw) => match html_article(old(item).external_id@, raw) {
                    None => r == Err::<SourceScannerReadResult, _>(ReadError::Extract),
                    Some((title, text)) => if article_differs(*old(item), title, text) {
                        &&& r == Ok::<_, ReadError>(SourceScannerReadResult::Found)
                        &&& final(item).process_version == HTML_PROCESS_VERSION
                        &&& final(item).metadata.name matches Some(n) && n@ == title
                        &&& final(item).content matches Some(c) && c@ == text
                    } else {
                        r == Ok::<_, ReadError>(SourceScannerReadResult::Unchanged)
                    },
                },
            },
        },
{
    let raw = match &item.raw_content {
        None => {
            return Ok(SourceScannerReadResult::Unchanged);
        },
        Some(frame) => match zstd_decode(frame.as_slice()) {
            None => {
                return Err(ReadError::Decompress);
            },
            Some(raw) => raw,
        },
    };
    let doc = match extract_article(item.external_id.as_str(), raw.as_slice()) {
        None => {
            return Err(ReadError::Extract);
        },
        Some(doc) => doc,
    };
    let same_name = match &item.metadata.name {
        Some(n) => *n == doc.title,
        None => false,
    };
    let same_content = match &item.content {
        Some(c) => *c == doc.text,
        None => false,
    };
    if same_name && same_content {
        return Ok(SourceScannerReadResult::Unchanged);
    }
    item.process_version = HTML_PROCESS_VERSION;
    item.metadata.name = Some(doc.title);
    item.content = Some(doc.text);
    Ok(SourceScannerReadResult::Found)
}

/// Whether `c` may stand in the value of a header: a tab, or any character
/// from the space on but the delete character.
pub open spec fn is_header_char(c: char) -> bool {
    c as u32 == 9 || (c as u32 >= 32 && c as u32 != 127)
}

/// Whether `value` may be the value of a header.
pub open spec fn is_header_value(value: Seq<char>) -> bool {
    forall|i: int| 0 <= i < value.len() ==> is_header_char(#[trigger] value[i])
}

fn header_value(value: &str) -> (r: bool)
    ensures
        r == is_header_value(value@),
{
    let mut ok = true;
    for c in it: value.chars()
        invariant
            it.seq() == value@,
            ok <==> forall|i: int| 0 <= i < it.index() ==> is_header_char(#[trigger] value@[i]),
    {
        let u: u32 = c as u32;
        if !(u == 9 || (u >= 32 && u != 127)) {
            ok = false;
        }
    }
    ok
}

/// The headers that make a request conditional.
#[derive(Debug, Clone, PartialEq, Eq)]
pub struct RequestHeaders {
    pub if_modified_since: Option<String>,
    pub if_none_match: Option<String>,
}

/// The time that the request names as the last known modification: the
/// item's own, or else the stored one.
pub open spec fn known_mtime(existing: Option<&FoundItem>, item: Item) -> Option<i64> {
    match item.metadata.mtime {
        Some(t) => Some(t),
        None => match existing {
            Some(e) => e.modified,
            None => None,
        },
    }
}

/// The freshness token that the request names: the item's own, or else the
/// stored one.
pub open spec fn known_hash(existing: Option<&FoundItem>, item: Item) -> Option<Seq<char>> {
    match item.hash {
        Some(h) => Some(h@),
        None => match existing {
            Some(e) => Some(e.hash@),
            None => None,
        },
    }
}

/// The headers with which an item is requested. `If-Modified-Since` is the
/// known modification time as an HTTP date, where one is known and lies
/// between the Unix epoch and the year 10000. `If-None-Match` is the known
/// freshness token, where one is known and may stand in a header.
pub fn request_headers(existing: Option<&FoundItem>, item: &Item) -> (r: RequestHeaders)
    ensures
        match known_mtime(existing, *item) {
            Some(t) if 0 <= t < HTTP_DATE_END => r.if_modified_since matches Some(d) && d@
                == http_date_text(t as u64),
            _ => r.if_modified_since is None,
        },
        match known_hash(existing, *item) {
            Some(h) if is_header_value(h) => r.if_none_match matches Some(e) && e@ == h,
            _ => r.if_none_match is None,
        },
{
    let mtime = match item.metadata.mtime {
        Some(t) => Some(t),
        None => match existing {
            Some(e) => e.modified,
            None => None,
        },
    };
    let if_modified_since = match mtime {
        Some(t) => if 0 <= t && t < 253402300800 {
            Some(fmt_http_date(t as u64))
        } else {
            None
        },
        None => None,
    };
    let hash: Option<&String> = match &item.hash {
        Some(h) => Some(h),
        None => match existing {
            Some(e) => Some(&e.hash),
            None => None,
        },
    };
    let if_none_match = match hash {
        Some(h) => if header_value(h.as_str()) {
            Some(h.clone())
        } else {
            None
        },
        None => None,
    };
    RequestHeaders { if_modified_since, if_none_match }
}

/// What the status of a response means for the item.
#[derive(Debug, Clone, Copy, PartialEq, Eq, Structural)]
pub enum StatusAction {
    /// Not modified: the item is unchanged.
    Unchanged,
    /// The item is skipped for the given reason.
    Skip(SkipReason),
    /// The response carries the item's content.
    Proceed,
}

/// The meaning of a status: 304 is unchanged; 401 and 403 are unauthorized,
/// 404 is not found, any other 3xx is a redirect, any other 4xx or 5xx is a
/// fetch error; everything else carries content.
pub open spec fn status_action(status: u16) -> StatusAction {
    if status == 304 {
        StatusAction::Unchanged
    } else if status == 401 || status == 403 {
        StatusAction::Skip(SkipReason::Unauthorized)
    } else if status == 404 {
        StatusAction::Skip(SkipReason::NotFound)
    } else if 300 <= status < 400 {
        StatusAction::Skip(SkipReason::Redirected)
    } else if 400 <= status < 600 {
        StatusAction::Skip(SkipReason::FetchError)
    } else {
        StatusAction::Proceed
    }
}

pub fn classify_status(status: u16) -> (r: StatusAction)
    ensures
        r == status_action(status),
{
    if status == 304 {
        StatusAction::Unchanged
    } else if status == 401 || status == 403 {
        StatusAction::Skip(SkipReason::Unauthorized)
    } else if status == 404 {
        StatusAction::Skip(SkipReason::NotFound)
    } else if 300 <= status && status < 400 {
        StatusAction::Skip(SkipReason::Redirected)
    } else if 400 <= status && status < 600 {
        StatusAction::Skip(SkipReason::FetchError)
    } else {
        StatusAction::Proceed
    }
}

/// What kind of content a response announces.
#[derive(Debug, Clone, Copy, PartialEq, Eq, Structural)]
pub enum ContentKind {
    /// `text/html`: an article is drawn from it.
    Html,
    /// Other text: stored as it is.
    Text,
    /// Not text: no content is stored.
    Other,
}

/// The media type of a `Content-Type` header: what stands before the first
/// semicolon, trimmed. A response without the header is plain text.
pub open spec fn media_type(content_type: Option<String>) -> Seq<char> {
    match content_type {
        Some(v) => text::trimmed(text::before_first(v@, ';')),
        None => "text/plain"@,
    }
}

/// The kind of content that a `Content-Type` header announces.
pub open spec fn content_kind_of(content_type: Option<String>) -> ContentKind {
    let mime = media_type(content_type);
    if !text::has_prefix(mime, "text/"@) {
        ContentKind::Other
    } else if text::has_prefix(mime, "text/html"@) {
        ContentKind::Html
    } else {
        ContentKind::Text
    }
}

pub fn content_kind(content_type: &Option<String>) -> (r: ContentKind)
    ensures
        r == content_kind_of(*content_type),
{
    let mime: &str = match content_type {
        Some(v) => text::trim(text::before(v.as_str(), ';')),
        None => "text/plain",
    };
    if !text::starts_with(mime, "text/") {
        ContentKind::Other
    } else if text::starts_with(mime, "text/html") {
        ContentKind::Html
    } else {
        ContentKind::Text
    }
}

/// Status and headers of a response, as far as the reader looks at them.
#[derive(Debug, Clone, PartialEq, Eq)]
pub struct ResponseHead {
    pub status: u16,
    pub content_type: Option<String>,
    pub etag: Option<String>,
    pub last_modified: Option<String>,
}

/// What is left to do once the head of a response was applied.
#[derive(Debug, Clone, Copy, PartialEq, Eq, Structural)]
pub enum HeadOutcome {
    /// The read is over, with this result.
    Done(SourceScannerReadResult),
    /// The body has to be read and applied.
    NeedBody { is_html: bool },
}

/// The modification time that a `Last-Modified` header gives.
pub open spec fn last_modified_time(last_modified: Option<String>) -> Option<i64> {
    match last_modified {
        Some(d) => http_date_seconds(d@),
        None => None,
    }
}

/// Takes over what the head of a response says of an item.
///
/// A 304 leaves the item as it is, unchanged. A status that means a skip
/// sets the reason, and the item is found. Any other response gives the item
/// its `ETag` as hash and its `Last-Modified` as modification time; where
/// the content is not text the item gets empty content and is found, and
/// else the body is asked for.
pub fn apply_response_head(item: &mut Item, head: ResponseHead) -> (r: HeadOutcome)
    ensures
        same_identity(*final(item), *old(item)),
        final(item).raw_content == old(item).raw_content,
        final(item).process_version == old(item).process_version,
        final(item).metadata.name == old(item).metadata.name,
        final(item).metadata.author == old(item).metadata.author,
        final(item).metadata.description == old(item).metadata.description,
        final(item).metadata.atime == old(item).metadata.atime,
        match status_action(head.status) {
            StatusAction::Unchanged => {
                &&& r == HeadOutcome::Done(SourceScannerReadResult::Unchanged)
                &&& *final(item) == *old(item)
            },
            StatusAction::Skip(reason) => {
                &&& r == HeadOutcome::Done(SourceScannerReadResult::Found)
                &&& final(item).skipped == Some(reason)
                &&& final(item).hash == old(item).hash
                &&& final(item).content == old(item).content
                &&& final(item).metadata.mtime == old(item).metadata.mtime
            },
            StatusAction::Proceed => {
                &&& final(item).skipped == old(item).skipped
                &&& final(item).hash == head.etag
                &&& final(item).metadata.mtime == last_modified_time(head.last_modified)
                &&& match content_kind_of(head.content_type) {
                    ContentKind::Other => {
                        &&& r == HeadOutcome::Done(SourceScannerReadResult::Found)
                        &&& final(item).content matches Some(c) && c@.len() == 0
                    },
                    ContentKind::Html => {
                        &&& r == HeadOutcome::NeedBody { is_html: true }
                        &&& final(item).content == old(item).content
                    },
                    ContentKind::Text => {
                        &&& r == HeadOutcome::NeedBody { is_html: false }
                        &&& final(item).content == old(item).content
                    },
                }
            },
        },
{
    match classify_status(head.status) {
        StatusAction::Unchanged => {
            return HeadOutcome::Done(SourceScannerReadResult::Unchanged);
        },
        StatusAction::Skip(reason) => {
            item.skipped = Some(reason);
            return HeadOutcome::Done(SourceScannerReadResult::Found);
        },
        StatusAction::Proceed => {},
    }
    let kind = content_kind(&head.content_type);
    item.metadata.mtime = match &head.last_modified {
        Some(d) => parse_http_date(d.as_str()),
        None => None,
    };
    item.hash = head.etag;
    match kind {
        ContentKind::Other => {
            // Keep the item, with empty content: its name may still be of
            // use, and hash and time save the next full fetch.
            item.content = Some(String::new());
            HeadOutcome::Done(SourceScannerReadResult::Found)
        },
        ContentKind::Html => HeadOutcome::NeedBody { is_html: true },
        ContentKind::Text => HeadOutcome::NeedBody { is_html: false },
    }
}

/// Records that the request failed before any response: the item is
/// skipped with a fetch error, and found.
pub fn apply_fetch_error(item: &mut Item) -> (r: SourceScannerReadResult)
    ensures
        r == SourceScannerReadResult::Found,
        *final(item) == (Item { skipped: Some(SkipReason::FetchError), ..*old(item) }),
{
    item.skipped = Some(SkipReason::FetchError);
    SourceScannerReadResult::Found
}

/// Takes over the body of a response.
///
/// An empty body means the item is skipped for want of content. The body of
/// a page is compressed into the item's raw content, and the article drawn
/// from it gives the item its name and content; where either step fails the
/// read fails. Any other body is the item's content. An item that took its
/// content from the body has the current process version.
pub fn apply_body(item: &mut Item, is_html: bool, body: String) -> (r: Result<
    SourceScannerReadResult,
    ReadError,
>)
    ensures
        same_identity(*final(item), *old(item)),
        final(item).hash == old(item).hash,
        final(item).metadata.author == old(item).metadata.author,
        final(item).metadata.description == old(item).metadata.description,
        final(item).metadata.mtime == old(item).metadata.mtime,
        final(item).metadata.atime == old(item).metadata.atime,
        if body@.len() == 0 {
            &&& r == Ok::<_, ReadError>(SourceScannerReadResult::Found)
            &&& *final(item) == (Item { skipped: Some(SkipReason::NoContent), ..*old(item) })
        } else if !is_html {
            &&& r == Ok::<_, ReadError>(SourceScannerReadResult::Found)
            &&& *final(item) == (Item {
                content: Some(body),
                process_version: HTML_PROCESS_VERSION,
                ..*old(item)
            })
        } else {
            match (
                zstd_frame(encode_utf8(body@), COMPRESSION_LEVEL),
                html_article(old(item).external_id@, encode_utf8(body@)),
            ) {
                (None, _) => {
                    &&& r == Err::<SourceScannerReadResult, _>(ReadError::Compress)
                    &&& *final(item) == *old(item)
                },
                (Some(frame), None) => {
                    &&& r == Err::<SourceScannerReadResult, _>(ReadError::Extract)
                    &&& final(item).raw_content matches Some(stored) && stored@ == frame
                    &&& final(item).content == old(item).content
                    &&& final(item).metadata.name == old(item).metadata.name
                    &&& final(item).process_version == old(item).process_version
                    &&& final(item).skipped == old(item).skipped
                },
                (Some(frame), Some((title, text))) => {
                    &&& r == Ok::<_, ReadError>(SourceScannerReadResult::Found)
                    &&& final(item).raw_content matches Some(stored) && stored@ == frame
                    &&& final(item).content matches Some(c) && c@ == text
                    &&& final(item).metadata.name matches Some(n) && n@ == title
                    &&& final(item).process_version == HTML_PROCESS_VERSION
                    &&& final(item).skipped == old(item).skipped
                },
            }
        },
{
    if body.as_str().unicode_len() == 0 {
        item.skipped = Some(SkipReason::NoContent);
        return Ok(SourceScannerReadResult::Found);
    }
    if is_html {
        let doc = extract_article(item.external_id.as_str(), body.as_str().as_bytes());
        let compressed = zstd_encode(body.as_str().as_bytes(), COMPRESSION_LEVEL);
        match compressed {
            None => {
                return Err(ReadError::Compress);
            },
            Some(frame) => {
                item.raw_content = Some(frame);
            },
        }
        match doc {
            None => {
                return Err(ReadError::Extract);
            },
            Some(doc) => {
                item.metadata.name = Some(doc.title);
                item.content = Some(doc.text);
            },
        }
    } else {
        item.content = Some(body);
    }
    item.process_version = HTML_PROCESS_VERSION;
    Ok(SourceScannerReadResult::Found)
}

/// Whether the item was accessed after the access that the store knows of.
/// Where either time is unknown it counts as newer.
pub open spec fn newer_access(existing: Option<&FoundItem>, item: Item) -> bool {
    match (item.metadata.atime, existing) {
        (Some(n), Some(e)) => match e.last_accessed {
            Some(stored) => n > stored,
            None => true,
        },
        _ => true,
    }
}

/// The reason for which the stored row rules out a fetch: a permanent skip.
pub open spec fn permanent_skip(existing: Option<&FoundItem>) -> Option<SkipReason> {
    match existing {
        Some(e) => match e.skipped {
            Some(reason) if reason.is_permanent() => Some(reason),
            _ => None,
        },
        None => None,
    }
}

/// Decides whether a page is fetched at all. Unless the scan is forced, an
/// item that the store holds as permanently skipped stays skipped and is
/// unchanged, and so is an item that was not accessed since the stored
/// access. `None` means: fetch.
pub fn fetch_decision(
    existing: Option<&FoundItem>,
    compare_strategy: ItemCompareStrategy,
    item: &mut Item,
) -> (r: Option<SourceScannerReadResult>)
    ensures
        if compare_strategy == ItemCompareStrategy::Force {
            r is None && *final(item) == *old(item)
        } else {
            match permanent_skip(existing) {
                Some(reason) => {
                    &&& r == Some(SourceScannerReadResult::Unchanged)
                    &&& *final(item) == (Item { skipped: Some(reason), ..*old(item) })
                },
                None => {
                    &&& *final(item) == *old(item)
                    &&& if newer_access(existing, *old(item)) {
                        r is None
                    } else {
                        r == Some(SourceScannerReadResult::Unchanged)
                    }
                },
            }
        },
{
    if compare_strategy == ItemCompareStrategy::Force {
        return None;
    }
    if let Some(e) = existing {
        if let Some(skipped) = e.skipped {
            if skipped.permanent() {
                // It was skipped last time, so it stays skipped.
                item.skipped = Some(skipped);
                return Some(SourceScannerReadResult::Unchanged);
            }
        }
    }
    let newer = match (item.metadata.atime, existing) {
        (Some(n), Some(e)) => match e.last_accessed {
            Some(stored) => n > stored,
            None => true,
        },
        _ => true,
    };
    if newer {
        None
    } else {
        Some(SourceScannerReadResult::Unchanged)
    }
}

} // verus!
