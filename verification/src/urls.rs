//! The boundary to the `url` crate.
//!
//! URLs cross this boundary as text. What the crate computes from a text is
//! named by an uninterpreted function of that text; the functions below are
//! believed, not proved, to return what their names stand for.

use vstd::prelude::*;

verus! {

/// The parts of a parsed URL that this crate reads.
#[derive(Debug, PartialEq, Eq)]
pub struct UrlParts {
    /// The scheme, without the `:`.
    pub scheme: String,
    /// The path component.
    pub path: String,
}

/// The mathematical view of [`UrlParts`].
pub struct UrlView {
    pub scheme: Seq<char>,
    pub path: Seq<char>,
}

impl View for UrlParts {
    type V = UrlView;

    open spec fn view(&self) -> UrlView {
        UrlView { scheme: self.scheme@, path: self.path@ }
    }
}

/// The view of an optional [`UrlParts`].
pub open spec fn opt_url_view(o: Option<UrlParts>) -> Option<UrlView> {
    match o {
        Some(u) => Some(u@),
        None => None,
    }
}

/// The view of the outcome of a join: the joined URL or the reason of failure.
pub open spec fn join_view(r: Result<String, String>) -> Result<Seq<char>, Seq<char>> {
    match r {
        Ok(s) => Ok(s@),
        Err(e) => Err(e@),
    }
}

/// The longest URL text, in characters, that is handed to an operation that
/// rewrites a URL in place. The `url` crate keeps 32-bit offsets into a URL's
/// serialization; below this length the offsets cannot overflow, even when
/// every character is percent-encoded.
pub const MAX_URL_CHARS: usize = 0x0400_0000;

/// What `Url::parse` makes of a text: nothing if it is no absolute URL, else
/// the scheme and the path of the URL.
pub uninterp spec fn parsed_url(text: Seq<char>) -> Option<UrlView>;

/// The serialization of the URL `url` after `Url::set_path` has replaced its
/// path by `path`.
pub uninterp spec fn url_with_path(url: Seq<char>, path: Seq<char>) -> Seq<char>;

/// What `Url::join` makes of `reference` against the URL `base`: the
/// serialization of the joined URL, or the text of the parse error.
pub uninterp spec fn joined_url(base: Seq<char>, reference: Seq<char>) -> Result<
    Seq<char>,
    Seq<char>,
>;

/// The serialization of the URL `url` after the last segment of its path has
/// been removed through `Url::path_segments_mut`.
pub uninterp spec fn url_without_last_segment(url: Seq<char>) -> Seq<char>;

/// Parses `text` with `Url::parse` and reads scheme and path off the result.
///
/// Trusted: the result is what the `url` crate computes from `text` alone.
#[verifier::external_body]
pub(crate) fn parse_url(text: &str) -> (r: Option<UrlParts>)
    ensures
        opt_url_view(r) == parsed_url(text@),
{
    match url::Url::parse(text) {
        Ok(u) => Some(UrlParts { scheme: u.scheme().to_string(), path: u.path().to_string() }),
        Err(_) => None,
    }
}

/// Parses `url`, replaces its path with `Url::set_path` and returns the new
/// serialization.
///
/// Trusted: the call succeeds exactly when `url` parses, and the result is
/// what the `url` crate computes from the two texts alone. The length bounds
/// keep the crate's 32-bit offsets from overflowing.
#[verifier::external_body]
pub(crate) fn set_url_path(url: &str, path: &str) -> (r: Option<String>)
    requires
        url@.len() <= MAX_URL_CHARS,
        path@.len() <= MAX_URL_CHARS,
    ensures
        r.is_some() == parsed_url(url@).is_some(),
        r matches Some(s) ==> s@ == url_with_path(url@, path@),
{
    match url::Url::parse(url) {
        Ok(mut u) => {
            u.set_path(path);
            Some(u.as_str().to_string())
        },
        Err(_) => None,
    }
}

/// Parses `base` and resolves `reference` against it with `Url::join`.
///
/// Trusted: the result is what the `url` crate computes from the two texts
/// alone; a `base` that does not parse gives an error like a failed join.
#[verifier::external_body]
pub(crate) fn join_url(base: &str, reference: &str) -> (r: Result<String, String>)
    ensures
        join_view(r) == joined_url(base@, reference@),
{
    match url::Url::parse(base) {
        Ok(b) => match b.join(reference) {
            Ok(u) => Ok(u.as_str().to_string()),
            Err(e) => Err(e.to_string()),
        },
        Err(e) => Err(e.to_string()),
    }
}

/// Parses `url`, removes the last segment of its path through
/// `Url::path_segments_mut` (a URL that cannot be a base is left as it is)
/// and returns the new serialization.
///
/// Trusted: the call succeeds exactly when `url` parses, and the result is
/// what the `url` crate computes from the text alone.
#[verifier::external_body]
pub(crate) fn pop_url_segment(url: &str) -> (r: Option<String>)
    requires
        url@.len() <= MAX_URL_CHARS,
    ensures
        r.is_some() == parsed_url(url@).is_some(),
        r matches Some(s) ==> s@ == url_without_last_segment(url@),
{
    match url::Url::parse(url) {
        Ok(mut u) => {
            if let Ok(mut segments) = u.path_segments_mut() {
                segments.pop();
            }
            Some(u.as_str().to_string())
        },
        Err(_) => None,
    }
}

} // verus!
