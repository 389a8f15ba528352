//! Resolution of import references to absolute, scheme-tagged locations.
//!
//! An import reference is an absolute URL, a path that begins with the
//! `${app_base_dir}` token, or a path relative to a base directory, which is
//! itself a URL or a path.

use vstd::prelude::*;
use crate::path::{is_rooted, normalize_chars, normalized};
use crate::text::{
    append_chars, chars_eq, chars_of, contains_chars, contains_text, copy_chars, opt_text,
    replace_chars, replaced, starts_with, starts_with_chars, string_of,
};
use crate::urls::{
    join_url, join_view, joined_url, opt_url_view, parse_url, parsed_url, pop_url_segment,
    set_url_path, url_with_path, url_without_last_segment, UrlParts, UrlView, MAX_URL_CHARS,
};

verus! {

/// Why an import reference could not be resolved.
#[derive(Debug, PartialEq, Eq)]
pub enum ResolveError {
    /// The reference is a rooted path without the `${app_base_dir}` token; a
    /// `file://` URL or a relative path is expected instead.
    AbsolutePathNotSupported,
    /// The reference holds the `${app_base_dir}` token, but not at its start.
    AppBaseDirNotAtStart,
    /// The reference holds the `${app_base_dir}` token and no application
    /// base directory was given.
    AppBaseDirRequired,
    /// The text is a URL whose scheme is none of `http`, `https` and `file`.
    UnsupportedScheme { scheme: String },
    /// The reference is relative and no base directory was given.
    BaseDirRequired,
    /// The reference could not be joined onto the base URL.
    JoinFailed { reason: String },
    /// The base URL is too long to be rewritten.
    TooLong,
    /// The path has no final component to remove.
    NoParentDirectory,
}

/// The mathematical view of [`ResolveError`].
pub enum ResolveErrorView {
    AbsolutePathNotSupported,
    AppBaseDirNotAtStart,
    AppBaseDirRequired,
    UnsupportedScheme { scheme: Seq<char> },
    BaseDirRequired,
    JoinFailed { reason: Seq<char> },
    TooLong,
    NoParentDirectory,
}

impl View for ResolveError {
    type V = ResolveErrorView;

    open spec fn view(&self) -> ResolveErrorView {
        match *self {
            ResolveError::AbsolutePathNotSupported => ResolveErrorView::AbsolutePathNotSupported,
            ResolveError::AppBaseDirNotAtStart => ResolveErrorView::AppBaseDirNotAtStart,
            ResolveError::AppBaseDirRequired => ResolveErrorView::AppBaseDirRequired,
            ResolveError::UnsupportedScheme { scheme } => ResolveErrorView::UnsupportedScheme {
                scheme: scheme@,
            },
            ResolveError::BaseDirRequired => ResolveErrorView::BaseDirRequired,
            ResolveError::JoinFailed { reason } => ResolveErrorView::JoinFailed { reason: reason@ },
            ResolveError::TooLong => ResolveErrorView::TooLong,
            ResolveError::NoParentDirectory => ResolveErrorView::NoParentDirectory,
        }
    }
}

impl ResolveErrorView {
    /// The error in words.
    pub open spec fn message(self) -> Seq<char> {
        match self {
            ResolveErrorView::AbsolutePathNotSupported => {
                "Absolute paths are not supported in import_uri. Use file:// URI or relative path instead"@
            },
            ResolveErrorView::AppBaseDirNotAtStart => {
                "${app_base_dir} must be at the beginning of the import_uri"@
            },
            ResolveErrorView::AppBaseDirRequired => {
                "app_base_dir must be provided when import_uri contains ${app_base_dir}"@
            },
            ResolveErrorView::UnsupportedScheme { scheme } => "Unsupported URL scheme '"@ + scheme
                + "'"@,
            ResolveErrorView::BaseDirRequired => {
                "base_dir cannot be None when uri is a relative path"@
            },
            ResolveErrorView::JoinFailed { reason } => {
                "Failed to resolve relative path against base URL: "@ + reason
            },
            ResolveErrorView::TooLong => "The base URL is too long"@,
            ResolveErrorView::NoParentDirectory => "The path has no parent directory"@,
        }
    }
}

impl ResolveError {
    /// The error in words.
    pub fn to_string(&self) -> (r: String)
        ensures
            r@ == self@.message(),
    {
        match self {
            ResolveError::AbsolutePathNotSupported => String::from_str(
                "Absolute paths are not supported in import_uri. Use file:// URI or relative path instead",
            ),
            ResolveError::AppBaseDirNotAtStart => String::from_str(
                "${app_base_dir} must be at the beginning of the import_uri",
            ),
            ResolveError::AppBaseDirRequired => String::from_str(
                "app_base_dir must be provided when import_uri contains ${app_base_dir}",
            ),
            ResolveError::UnsupportedScheme { scheme } => {
                let mut text = String::from_str("Unsupported URL scheme '");
                text.append(scheme.as_str());
                text.append("'");
                text
            },
            ResolveError::BaseDirRequired => String::from_str(
                "base_dir cannot be None when uri is a relative path",
            ),
            ResolveError::JoinFailed { reason } => {
                let mut text = String::from_str(
                    "Failed to resolve relative path against base URL: ",
                );
                text.append(reason.as_str());
                text
            },
            ResolveError::TooLong => String::from_str("The base URL is too long"),
            ResolveError::NoParentDirectory => String::from_str("The path has no parent directory"),
        }
    }
}

/// The view of the outcome of a resolution.
pub open spec fn located(r: Result<String, ResolveError>) -> Result<Seq<char>, ResolveErrorView> {
    match r {
        Ok(s) => Ok(s@),
        Err(e) => Err(e@),
    }
}

/// The view of an outcome that may still be open.
pub open spec fn opt_located(o: Option<Result<String, ResolveError>>) -> Option<
    Result<Seq<char>, ResolveErrorView>,
> {
    match o {
        Some(r) => Some(located(r)),
        None => None,
    }
}

/// The view of an optional string slice.
pub open spec fn opt_str(o: Option<&str>) -> Option<Seq<char>> {
    match o {
        Some(s) => Some(s@),
        None => None,
    }
}

/// The token that stands for the application's base directory.
pub open spec fn app_base_dir_token() -> Seq<char> {
    "${app_base_dir}"@
}

/// Whether `c` is one of the letters `a` to `z` and `A` to `Z`.
pub open spec fn is_ascii_letter(c: char) -> bool {
    ('a' <= c && c <= 'z') || ('A' <= c && c <= 'Z')
}

/// Whether the text begins like a path on a lettered drive: a letter, a
/// colon, and at least one more character.
pub open spec fn is_drive_path(p: Seq<char>) -> bool {
    p.len() >= 3 && p[1] == ':' && is_ascii_letter(p[0])
}

/// Whether a scheme is a single letter, which is read as a drive letter and
/// not as a scheme.
pub open spec fn is_drive_scheme(scheme: Seq<char>) -> bool {
    scheme.len() == 1 && is_ascii_letter(scheme[0])
}

/// Whether a scheme is one of those whose URLs are locations as they stand.
pub open spec fn is_location_scheme(scheme: Seq<char>) -> bool {
    scheme == "http"@ || scheme == "https"@ || scheme == "file"@
}

/// What the parse of an import reference `text` settles: a URL with a
/// location scheme is the location as it stands, one with a drive letter for
/// a scheme settles nothing, one with any other scheme is refused. A text
/// that is no URL settles nothing.
pub open spec fn url_disposition(text: Seq<char>, parsed: Option<UrlView>) -> Option<
    Result<Seq<char>, ResolveErrorView>,
> {
    match parsed {
        Some(u) => if is_location_scheme(u.scheme) {
            Some(Ok(text))
        } else if is_drive_scheme(u.scheme) {
            None
        } else {
            Some(Err(ResolveErrorView::UnsupportedScheme { scheme: u.scheme }))
        },
        None => None,
    }
}

/// `rel` placed under the directory `base`: a rooted `rel` stands for itself;
/// otherwise the two are joined, with a `/` between them unless `base` is
/// empty or ends with one.
pub open spec fn joined_path(base: Seq<char>, rel: Seq<char>) -> Seq<char> {
    if is_rooted(rel) {
        rel
    } else if base.len() == 0 || base.last() == '/' {
        base + rel
    } else {
        base + seq!['/'] + rel
    }
}

/// How a relative reference is joined onto a base directory.
#[derive(Debug, PartialEq, Eq)]
pub enum JoinPlan {
    /// The base is a path.
    AsPath,
    /// The base is a URL whose path ends with `/`.
    AsUrl,
    /// The base is a URL whose path must first be replaced by `path`, which
    /// is the old path with a `/` added.
    AsUrlUnder { path: String },
    /// The base is a URL too long to have its path replaced.
    TooLong,
}

/// The mathematical view of [`JoinPlan`].
pub enum JoinPlanView {
    AsPath,
    AsUrl,
    AsUrlUnder { path: Seq<char> },
    TooLong,
}

impl View for JoinPlan {
    type V = JoinPlanView;

    open spec fn view(&self) -> JoinPlanView {
        match *self {
            JoinPlan::AsPath => JoinPlanView::AsPath,
            JoinPlan::AsUrl => JoinPlanView::AsUrl,
            JoinPlan::AsUrlUnder { path } => JoinPlanView::AsUrlUnder { path: path@ },
            JoinPlan::TooLong => JoinPlanView::TooLong,
        }
    }
}

/// The plan for a base directory `base` of which `parsed` is the parse: a URL
/// with a scheme of more than one character is joined onto as a URL, after
/// its path has been made to end with `/`; anything else is a path.
pub open spec fn join_plan(base: Seq<char>, parsed: Option<UrlView>) -> JoinPlanView {
    match parsed {
        Some(u) => if u.scheme.len() > 1 {
            if u.path.len() > 0 && u.path.last() == '/' {
                JoinPlanView::AsUrl
            } else if base.len() > MAX_URL_CHARS || u.path.len() >= MAX_URL_CHARS {
                JoinPlanView::TooLong
            } else {
                JoinPlanView::AsUrlUnder { path: u.path.push('/') }
            }
        } else {
            JoinPlanView::AsPath
        },
        None => JoinPlanView::AsPath,
    }
}

/// The outcome of a join as the outcome of a resolution.
pub open spec fn join_outcome(joined: Result<Seq<char>, Seq<char>>) -> Result<
    Seq<char>,
    ResolveErrorView,
> {
    match joined {
        Ok(href) => Ok(href),
        Err(reason) => Err(ResolveErrorView::JoinFailed { reason }),
    }
}

/// The location of the relative reference `rel` under the base directory
/// `base`.
pub open spec fn resolved_relative(rel: Seq<char>, base: Option<Seq<char>>) -> Result<
    Seq<char>,
    ResolveErrorView,
> {
    match base {
        Some(b) => if b.len() == 0 {
            Err(ResolveErrorView::BaseDirRequired)
        } else {
            match join_plan(b, parsed_url(b)) {
                JoinPlanView::AsPath => Ok(normalized(joined_path(b, rel))),
                JoinPlanView::AsUrl => join_outcome(joined_url(b, rel)),
                JoinPlanView::AsUrlUnder { path } => join_outcome(
                    joined_url(url_with_path(b, path), rel),
                ),
                JoinPlanView::TooLong => Err(ResolveErrorView::TooLong),
            }
        },
        None => Err(ResolveErrorView::BaseDirRequired),
    }
}

/// The location of a reference in which the token has been substituted.
pub open spec fn resolved_substituted(p: Seq<char>, base: Option<Seq<char>>) -> Result<
    Seq<char>,
    ResolveErrorView,
> {
    if is_rooted(p) || is_drive_path(p) {
        Ok("file://"@ + normalized(p))
    } else {
        match url_disposition(p, parsed_url(p)) {
            Some(outcome) => outcome,
            None => resolved_relative(p, base),
        }
    }
}

/// The location that an import reference stands for.
pub open spec fn resolved_location(
    uri: Seq<char>,
    base: Option<Seq<char>>,
    app_base: Option<Seq<char>>,
) -> Result<Seq<char>, ResolveErrorView> {
    if !contains_text(uri, app_base_dir_token()) {
        if is_rooted(uri) {
            Err(ResolveErrorView::AbsolutePathNotSupported)
        } else {
            resolved_substituted(uri, base)
        }
    } else if !starts_with(uri, app_base_dir_token()) {
        Err(ResolveErrorView::AppBaseDirNotAtStart)
    } else {
        match app_base {
            Some(dir) => resolved_substituted(replaced(uri, app_base_dir_token(), dir), base),
            None => Err(ResolveErrorView::AppBaseDirRequired),
        }
    }
}

/// Whether the path begins with a `.` segment, which stands for the current
/// directory. Only at the front is such a segment a component of a path;
/// anywhere else it is passed over.
pub open spec fn has_leading_cur_dir(p: Seq<char>) -> bool {
    p.len() >= 1 && p[0] == '.' && (p.len() == 1 || p[1] == '/')
}

/// The length of the front of a path, which no step back removes: the root,
/// or a leading `.` segment.
pub open spec fn front_len(p: Seq<char>) -> nat {
    if is_rooted(p) || has_leading_cur_dir(p) {
        1
    } else {
        0
    }
}

/// The length of the last segment of `p` behind its first `front`
/// characters: the number of characters after the last `/`.
pub open spec fn last_segment_len(p: Seq<char>, front: nat) -> nat
    decreases p.len(),
{
    if p.len() <= front || p.last() == '/' {
        0
    } else {
        1 + last_segment_len(p.drop_last(), front)
    }
}

/// `p` without what is passed over at its end: separators and `.` segments,
/// each `.` with the separator before it. The first `front` characters stay.
pub open spec fn without_passed_over(p: Seq<char>, front: nat) -> Seq<char>
    decreases p.len(),
{
    if p.len() <= front {
        p
    } else if last_segment_len(p, front) == 0 {
        without_passed_over(p.drop_last(), front)
    } else if last_segment_len(p, front) == 1 && p.last() == '.' {
        if p.len() - 1 > front {
            without_passed_over(p.take(p.len() - 2), front)
        } else {
            without_passed_over(p.take(p.len() - 1), front)
        }
    } else {
        p
    }
}

/// The directory that holds the last component of the path `p`: `p` without
/// that component, the separator before it, and what is passed over around
/// it. Empty segments and `.` segments are no components, except a `.` at
/// the front. The parent of a component directly under the root is the
/// root, and that of a lone component is the empty path; the root and the
/// empty path have no parent.
pub open spec fn parent_path(p: Seq<char>) -> Option<Seq<char>> {
    let front = front_len(p);
    let path = without_passed_over(p, front);
    if path.len() > front {
        let last = last_segment_len(path, front);
        let cut = if path.len() - last > front {
            path.len() - last - 1
        } else {
            path.len() - last
        };
        Some(without_passed_over(path.take(cut), front))
    } else if has_leading_cur_dir(p) {
        Some(Seq::empty())
    } else {
        None
    }
}

/// What can be said of the base directory of `uri`, of which `parsed` is the
/// parse, before any URL is rewritten: a URL with a location scheme is left
/// open unless it is too long, a URL with another scheme is refused, and a
/// text that is no URL is a path, whose directory is its parent.
pub open spec fn base_dir_decision(uri: Seq<char>, parsed: Option<UrlView>) -> Option<
    Result<Seq<char>, ResolveErrorView>,
> {
    match parsed {
        Some(u) => if is_location_scheme(u.scheme) {
            if uri.len() > MAX_URL_CHARS {
                Some(Err(ResolveErrorView::TooLong))
            } else {
                None
            }
        } else {
            Some(Err(ResolveErrorView::UnsupportedScheme { scheme: u.scheme }))
        },
        None => match parent_path(uri) {
            Some(dir) => Some(Ok(dir)),
            None => Some(Err(ResolveErrorView::NoParentDirectory)),
        },
    }
}

/// The base directory of a location: for a URL, the URL without the last
/// segment of its path; for a path, its parent.
pub open spec fn base_dir_of(uri: Seq<char>) -> Result<Seq<char>, ResolveErrorView> {
    match base_dir_decision(uri, parsed_url(uri)) {
        Some(outcome) => outcome,
        None => Ok(url_without_last_segment(uri)),
    }
}

/// Measures the last segment of `p` behind its first `front` characters.
fn measure_last_segment(p: &Vec<char>, front: usize) -> (n: usize)
    ensures
        n == last_segment_len(p@, front as nat),
        n <= p.len(),
        p.len() > front ==> n <= p.len() - front,
{
    let len = p.len();
    let mut n: usize = 0;
    assert(p@.take(len as int) =~= p@);
    while n < len && len - n > front && p[len - n - 1] != '/'
        invariant
            len == p.len(),
            n <= len,
            len > front ==> n <= len - front,
            last_segment_len(p@, front as nat) == n + last_segment_len(
                p@.take(len - n),
                front as nat,
            ),
        decreases len - n,
    {
        assert(p@.take(len - n).drop_last() =~= p@.take(len - n - 1));
        n += 1;
    }
    n
}

/// Removes what is passed over at the end of `p`.
fn drop_passed_over(p: &mut Vec<char>, front: usize)
    ensures
        final(p)@ == without_passed_over(old(p)@, front as nat),
{
    while p.len() > front
        invariant
            without_passed_over(p@, front as nat) == without_passed_over(old(p)@, front as nat),
        decreases p.len(),
    {
        let ghost before = p@;
        let n = measure_last_segment(p, front);
        if n == 0 {
            p.pop();
            assert(p@ =~= before.drop_last());
        } else if n == 1 && p[p.len() - 1] == '.' {
            if p.len() - 1 > front {
                p.pop();
                p.pop();
                assert(p@ =~= before.take(before.len() - 2));
            } else {
                p.pop();
                assert(p@ =~= before.take(before.len() - 1));
            }
        } else {
            return ;
        }
    }
}

/// The directory that holds the last component of a path.
pub fn parent_of_path(path: &Vec<char>) -> (r: Option<Vec<char>>)
    ensures
        (match r {
            Some(dir) => parent_path(path@) == Some(dir@),
            None => parent_path(path@).is_none(),
        }),
{
    let rooted = path.len() > 0 && path[0] == '/';
    let cur_dir = path.len() >= 1 && path[0] == '.' && (path.len() == 1 || path[1] == '/');
    let front: usize = if rooted || cur_dir {
        1
    } else {
        0
    };
    let mut p = copy_chars(path);
    drop_passed_over(&mut p, front);
    if p.len() > front {
        let last = measure_last_segment(&p, front);
        let cut = if p.len() - last > front {
            p.len() - last - 1
        } else {
            p.len() - last
        };
        let ghost whole = p@;
        p.truncate(cut);
        assert(p@ =~= whole.take(cut as int));
        drop_passed_over(&mut p, front);
        Some(p)
    } else if cur_dir {
        Some(Vec::new())
    } else {
        None
    }
}

/// Decides what can be said of the base directory of `uri` from its parse.
pub fn decide_base_dir(uri: &str, parsed: Option<UrlParts>) -> (r: Option<
    Result<String, ResolveError>,
>)
    ensures
        opt_located(r) == base_dir_decision(uri@, opt_url_view(parsed)),
{
    match parsed {
        Some(u) => {
            if scheme_is_location(u.scheme.as_str()) {
                if uri.unicode_len() > MAX_URL_CHARS {
                    Some(Err(ResolveError::TooLong))
                } else {
                    None
                }
            } else {
                Some(Err(ResolveError::UnsupportedScheme { scheme: u.scheme }))
            }
        },
        None => {
            let p = chars_of(uri);
            match parent_of_path(&p) {
                Some(dir) => Some(Ok(string_of(&dir))),
                None => Some(Err(ResolveError::NoParentDirectory)),
            }
        },
    }
}

/// The base directory of a location, against which the relative references
/// of the document found there are resolved.
///
/// For a URL with scheme `http`, `https` or `file` this is the URL without
/// the last segment of its path; a URL with another scheme is refused. For a
/// path it is the parent directory, taken by components: empty and `.`
/// segments are passed over.
pub fn get_base_dir_of_uri(uri: &str) -> (r: Result<String, ResolveError>)
    ensures
        located(r) == base_dir_of(uri@),
{
    match decide_base_dir(uri, parse_url(uri)) {
        Some(outcome) => outcome,
        None => match pop_url_segment(uri) {
            Some(dir) => Ok(dir),
            None => {
                // The decision is left open only for a text that parses.
                assert(false);
                Err(ResolveError::TooLong)
            },
        },
    }
}

/// The prefix of a verbatim path to a network share.
pub open spec fn verbatim_unc_prefix() -> Seq<char> {
    "\\\\?\\UNC\\"@
}

/// The prefix of a verbatim path.
pub open spec fn verbatim_prefix() -> Seq<char> {
    "\\\\?\\"@
}

/// `p` with every backslash replaced by a slash.
pub open spec fn with_slashes(p: Seq<char>) -> Seq<char> {
    Seq::new(
        p.len(),
        |i: int|
            if p[i] == '\\' {
                '/'
            } else {
                p[i]
            },
    )
}

/// A local path of the backslash convention in the form that this crate
/// handles: a verbatim prefix is taken off (that of a network share leaves
/// the two separators that begin a share), and every backslash becomes a
/// slash.
pub open spec fn sanitized_windows_path(p: Seq<char>) -> Seq<char> {
    if starts_with(p, verbatim_unc_prefix()) {
        with_slashes("\\\\"@ + p.skip(verbatim_unc_prefix().len() as int))
    } else if starts_with(p, verbatim_prefix()) {
        with_slashes(p.skip(verbatim_prefix().len() as int))
    } else {
        with_slashes(p)
    }
}

/// Replaces every backslash of `p`, from index `from` on, by a slash and
/// adds the characters to `out`.
fn push_with_slashes(out: &mut Vec<char>, p: &Vec<char>, from: usize)
    requires
        from <= p.len(),
    ensures
        final(out)@ == old(out)@ + with_slashes(p@.skip(from as int)),
{
    let ghost rest = with_slashes(p@.skip(from as int));
    let mut i: usize = from;
    assert(rest.take(0) =~= Seq::<char>::empty());
    while i < p.len()
        invariant
            from <= i <= p.len(),
            rest == with_slashes(p@.skip(from as int)),
            out@ == old(out)@ + rest.take(i - from),
        decreases p.len() - i,
    {
        let c = if p[i] == '\\' {
            '/'
        } else {
            p[i]
        };
        out.push(c);
        assert(rest.take(i + 1 - from) =~= rest.take(i - from).push(c));
        i += 1;
    }
    assert(rest.take(p.len() - from) =~= rest);
}

/// Brings a local path of the backslash convention into the form that this
/// crate handles.
pub fn sanitize_windows_local_path(raw_path: Option<&str>) -> (r: Option<String>)
    ensures
        (opt_text(r) == match opt_str(raw_path) {
            Some(p) => Some(sanitized_windows_path(p)),
            None => None,
        }),
{
    let path = match raw_path {
        Some(p) => chars_of(p),
        None => { return None; },
    };
    let unc = chars_of("\\\\?\\UNC\\");
    let verbatim = chars_of("\\\\?\\");
    let mut out: Vec<char> = Vec::new();
    if starts_with_chars(&path, &unc) {
        let mut share = chars_of("\\\\");
        let ghost head = share@;
        let mut i: usize = unc.len();
        while i < path.len()
            invariant
                unc.len() <= i <= path.len(),
                share@ == head + path@.subrange(unc.len() as int, i as int),
            decreases path.len() - i,
        {
            share.push(path[i]);
            i += 1;
        }
        assert(path@.subrange(unc.len() as int, path.len() as int) =~= path@.skip(
            unc.len() as int,
        ));
        assert(share@.skip(0) =~= share@);
        push_with_slashes(&mut out, &share, 0);
    } else if starts_with_chars(&path, &verbatim) {
        push_with_slashes(&mut out, &path, verbatim.len());
    } else {
        assert(path@.skip(0) =~= path@);
        push_with_slashes(&mut out, &path, 0);
    }
    assert(Seq::<char>::empty() + out@ =~= out@);
    Some(string_of(&out))
}

/// Tests whether `c` is an ASCII letter.
pub fn is_letter(c: char) -> (r: bool)
    ensures
        r == is_ascii_letter(c),
{
    ('a' <= c && c <= 'z') || ('A' <= c && c <= 'Z')
}

/// Tests whether the text begins like a path on a lettered drive.
pub fn is_drive_like(p: &Vec<char>) -> (r: bool)
    ensures
        r == is_drive_path(p@),
{
    p.len() >= 3 && p[1] == ':' && is_letter(p[0])
}

/// Tests whether a scheme is one of `http`, `https` and `file`.
pub fn scheme_is_location(scheme: &str) -> (r: bool)
    ensures
        r == is_location_scheme(scheme@),
{
    let s = chars_of(scheme);
    chars_eq(&s, &chars_of("http")) || chars_eq(&s, &chars_of("https")) || chars_eq(
        &s,
        &chars_of("file"),
    )
}

/// Decides what the parse of the import reference `text` settles.
pub fn classify_parsed_import(text: String, parsed: Option<UrlParts>) -> (r: Option<
    Result<String, ResolveError>,
>)
    ensures
        opt_located(r) == url_disposition(text@, opt_url_view(parsed)),
{
    match parsed {
        Some(u) => {
            if scheme_is_location(u.scheme.as_str()) {
                Some(Ok(text))
            } else {
                let s = chars_of(u.scheme.as_str());
                if s.len() == 1 && is_letter(s[0]) {
                    None
                } else {
                    Some(Err(ResolveError::UnsupportedScheme { scheme: u.scheme }))
                }
            }
        },
        None => None,
    }
}

/// Decides how a relative reference is joined onto the base directory `base`,
/// of which `parsed` is the parse.
pub fn plan_join(base: &str, parsed: Option<UrlParts>) -> (r: JoinPlan)
    ensures
        r@ == join_plan(base@, opt_url_view(parsed)),
{
    match parsed {
        Some(u) => {
            let scheme = chars_of(u.scheme.as_str());
            if scheme.len() > 1 {
                let mut path = chars_of(u.path.as_str());
                if path.len() > 0 && path[path.len() - 1] == '/' {
                    JoinPlan::AsUrl
                } else if base.unicode_len() > MAX_URL_CHARS || path.len() >= MAX_URL_CHARS {
                    JoinPlan::TooLong
                } else {
                    path.push('/');
                    JoinPlan::AsUrlUnder { path: string_of(&path) }
                }
            } else {
                JoinPlan::AsPath
            }
        },
        None => JoinPlan::AsPath,
    }
}

/// Turns the outcome of a join into the outcome of a resolution.
pub fn finish_join(joined: Result<String, String>) -> (r: Result<String, ResolveError>)
    ensures
        located(r) == join_outcome(join_view(joined)),
{
    match joined {
        Ok(href) => Ok(href),
        Err(reason) => Err(ResolveError::JoinFailed { reason }),
    }
}

/// Places `rel` under the directory `base`.
pub fn join_paths(base: &Vec<char>, rel: &Vec<char>) -> (r: Vec<char>)
    ensures
        r@ == joined_path(base@, rel@),
{
    if rel.len() > 0 && rel[0] == '/' {
        return copy_chars(rel);
    }
    let mut out = copy_chars(base);
    if base.len() > 0 && base[base.len() - 1] != '/' {
        out.push('/');
    }
    append_chars(&mut out, rel);
    out
}

/// Resolves the relative reference `rel` under the base directory `base`.
fn resolve_relative(rel: &Vec<char>, base: Option<&str>) -> (r: Result<String, ResolveError>)
    ensures
        located(r) == resolved_relative(rel@, opt_str(base)),
{
    let base = match base {
        Some(b) => b,
        None => { return Err(ResolveError::BaseDirRequired); },
    };
    let b = chars_of(base);
    if b.len() == 0 {
        return Err(ResolveError::BaseDirRequired);
    }
    let rel_text = string_of(rel);
    match plan_join(base, parse_url(base)) {
        JoinPlan::AsPath => {
            let joined = join_paths(&b, rel);
            Ok(string_of(&normalize_chars(&joined)))
        },
        JoinPlan::AsUrl => finish_join(join_url(base, rel_text.as_str())),
        JoinPlan::AsUrlUnder { path } => {
            match set_url_path(base, path.as_str()) {
                Some(under) => finish_join(join_url(under.as_str(), rel_text.as_str())),
                None => {
                    // The plan is made from a successful parse of `base`.
                    assert(false);
                    Err(ResolveError::TooLong)
                },
            }
        },
        JoinPlan::TooLong => Err(ResolveError::TooLong),
    }
}

/// Resolves a reference in which the token has been substituted.
fn resolve_substituted(p: &Vec<char>, base: Option<&str>) -> (r: Result<String, ResolveError>)
    ensures
        located(r) == resolved_substituted(p@, opt_str(base)),
{
    if (p.len() > 0 && p[0] == '/') || is_drive_like(p) {
        let mut out = chars_of("file://");
        let n = normalize_chars(p);
        append_chars(&mut out, &n);
        return Ok(string_of(&out));
    }
    let text = string_of(p);
    let parsed = parse_url(text.as_str());
    match classify_parsed_import(text, parsed) {
        Some(outcome) => outcome,
        None => resolve_relative(p, base),
    }
}

/// Resolves an import reference to an absolute location.
///
/// - A rooted path without the `${app_base_dir}` token is refused.
/// - The token must stand at the start; every occurrence of it is replaced
///   by `raw_app_base_dir`, which must then be given.
/// - A rooted or drive-lettered path becomes a `file://` location of its
///   normal form.
/// - A URL with scheme `http`, `https` or `file` is returned as it stands; a
///   URL with another scheme is refused, unless the scheme is a single
///   letter, which is taken for a drive letter.
/// - Anything else is relative to `raw_base_dir`, which must be given and
///   not empty: onto a URL with a scheme of more than one character it is
///   joined by URL rules, after the base path has been made to end with `/`;
///   onto a path it is joined and normalized as a path.
pub fn get_real_path_from_import_uri(
    import_uri: &str,
    raw_base_dir: Option<&str>,
    raw_app_base_dir: Option<&str>,
) -> (r: Result<String, ResolveError>)
    ensures
        located(r) == resolved_location(
            import_uri@,
            opt_str(raw_base_dir),
            opt_str(raw_app_base_dir),
        ),
{
    let uri = chars_of(import_uri);
    let token = chars_of("${app_base_dir}");
    if !contains_chars(&uri, &token) {
        if uri.len() > 0 && uri[0] == '/' {
            return Err(ResolveError::AbsolutePathNotSupported);
        }
        return resolve_substituted(&uri, raw_base_dir);
    }
    if !starts_with_chars(&uri, &token) {
        return Err(ResolveError::AppBaseDirNotAtStart);
    }
    match raw_app_base_dir {
        Some(dir) => {
            let with = chars_of(dir);
            let processed = replace_chars(&uri, &token, &with);
            resolve_substituted(&processed, raw_base_dir)
        },
        None => Err(ResolveError::AppBaseDirRequired),
    }
}

} // verus!
