//! What the scanners need to know of a URL, by way of the `url` crate.

use vstd::prelude::*;
use vstd::string::*;

verus! {

/// The parts of a URL that the scanners look at.
#[derive(Debug)]
pub struct UrlParts {
    pub scheme: String,
    pub host: Option<String>,
    pub path: String,
    pub has_fragment: bool,
}

/// Scheme, host, path and presence of a fragment of the URL that `url`
/// writes, as the `url` crate reads it, or `None` where it reads no URL.
pub uninterp spec fn url_parts(url: Seq<char>) -> Option<
    (Seq<char>, Option<Seq<char>>, Seq<char>, bool),
>;

/// The characters of a host; none where there is no host.
pub open spec fn host_text(host: Option<Seq<char>>) -> Seq<char> {
    match host {
        Some(h) => h,
        None => Seq::empty(),
    }
}

/// The characters of a host that may be missing.
pub open spec fn host_view(host: Option<String>) -> Option<Seq<char>> {
    match host {
        Some(h) => Some(h@),
        None => None,
    }
}

/// The URL `url` as the `url` crate writes it once its scheme is set to
/// `scheme`, as far as the crate lets it be set; `None` where `url` is no
/// URL.
pub uninterp spec fn url_with_scheme(url: Seq<char>, scheme: Seq<char>) -> Option<Seq<char>>;

/// The URL `url` as the `url` crate writes it once its fragment is
/// removed; `None` where `url` is no URL.
pub uninterp spec fn url_without_fragment(url: Seq<char>) -> Option<Seq<char>>;

/// The URL `url` as the `url` crate writes it once its path is set to
/// `path`; `None` where `url` is no URL.
pub uninterp spec fn url_with_path(url: Seq<char>, path: Seq<char>) -> Option<Seq<char>>;

impl UrlParts {
    /// The host, or the empty text where the URL has none.
    pub fn host_or_empty(&self) -> (r: &str)
        ensures
            r@ == host_text(host_view(self.host)),
    {
        proof {
            reveal_strlit("");
        }
        match &self.host {
            Some(h) => h.as_str(),
            None => {
                assert(""@ == Seq::<char>::empty());
                ""
            },
        }
    }
}

/// `url::Url::parse`, and of the URL it gives `scheme`, `host_str`, `path`
/// and `fragment`.
#[verifier::external_body]
pub(crate) fn parse_url(url: &str) -> (r: Option<UrlParts>)
    ensures
        match r {
            Some(parts) => url_parts(url@) == Some(
                (parts.scheme@, host_view(parts.host), parts.path@, parts.has_fragment),
            ),
            None => url_parts(url@) is None,
        },
{
    let parsed = url::Url::parse(url).ok()?;
    Some(
        UrlParts {
            scheme: parsed.scheme().to_string(),
            host: parsed.host_str().map(String::from),
            path: parsed.path().to_string(),
            has_fragment: parsed.fragment().is_some(),
        },
    )
}

/// `url::Url::parse`, then `set_scheme`, whose refusal is passed over,
/// then the URL written out.
#[verifier::external_body]
pub(crate) fn with_scheme(url: &str, scheme: &str) -> (r: Option<String>)
    ensures
        match r {
            Some(rewritten) => url_with_scheme(url@, scheme@) == Some(rewritten@),
            None => url_with_scheme(url@, scheme@) is None,
        },
{
    let mut parsed = url::Url::parse(url).ok()?;
    parsed.set_scheme(scheme).ok();
    Some(parsed.to_string())
}

/// `url::Url::parse`, then `set_fragment` to none, then the URL written
/// out.
#[verifier::external_body]
pub(crate) fn without_fragment(url: &str) -> (r: Option<String>)
    ensures
        match r {
            Some(rewritten) => url_without_fragment(url@) == Some(rewritten@),
            None => url_without_fragment(url@) is None,
        },
{
    let mut parsed = url::Url::parse(url).ok()?;
    parsed.set_fragment(None);
    Some(parsed.to_string())
}

/// `url::Url::parse`, then `set_path`, then the URL written out.
#[verifier::external_body]
pub(crate) fn replace_path(url: &str, path: &str) -> (r: Option<String>)
    ensures
        match r {
            Some(replaced) => url_with_path(url@, path@) == Some(replaced@),
            None => url_with_path(url@, path@) is None,
        },
{
    let mut parsed = url::Url::parse(url).ok()?;
    parsed.set_path(path);
    Some(parsed.to_string())
}

} // verus!
