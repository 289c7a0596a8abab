//! Rewriting the destinations of links so that local documents open through
//! the previewer itself.
use vstd::prelude::*;
use crate::path::{get_relative_path_under_cwd, join_and_canonicalize, relativize, resolve, text_of};

verus! {

/// Whether `s` parses as an absolute URL, scheme included.
pub uninterp spec fn parses_as_url(s: Seq<char>) -> bool;

/// Relies on `url::Url::parse`: whether `s` is a well-formed absolute URL.
#[verifier::external_body]
pub(crate) fn is_url(s: &str) -> (r: bool)
    ensures
        r == parses_as_url(s@),
{
    url::Url::parse(s).is_ok()
}

/// The previewer's own address for the document at `path`.
pub open spec fn navigation_url(path: Seq<char>) -> Seq<char> {
    "/?path="@ + path
}

/// `s` is a previewer address `/?path=<value>`.
pub open spec fn is_navigation_url(s: Seq<char>) -> bool {
    exists|path: Seq<char>| s == #[trigger] navigation_url(path)
}

/// The destination that replaces the link `dest` in the document
/// `current_file`: a URL (`dest_is_url`) is kept, anything else is a local
/// path, resolved against the file, made relative to the working directory
/// `cwd` where it lies below it, and wrapped into a previewer address.
pub open spec fn rewritten(
    dest: Seq<char>,
    dest_is_url: bool,
    current_file: Seq<char>,
    cwd: Option<Seq<char>>,
) -> Seq<char> {
    if dest_is_url {
        dest
    } else {
        navigation_url(relativize(resolve(dest, current_file), cwd))
    }
}

/// Rewrites the link `dest` of the document `current_file`, given whether it
/// is a URL. Absolute local paths are cleaned like relative ones.
pub fn rewrite_link_classified(
    dest: &str,
    dest_is_url: bool,
    current_file: &str,
    cwd: Option<&str>,
) -> (r: String)
    ensures
        r@ == rewritten(dest@, dest_is_url, current_file@, text_of(cwd)),
{
    if dest_is_url {
        return String::from_str(dest);
    }
    let resolved = join_and_canonicalize(dest, current_file);
    let target = match get_relative_path_under_cwd(resolved.as_str(), cwd) {
        Some(p) => p,
        None => resolved,
    };
    let mut out = String::from_str("/?path=");
    out.append(target.as_str());
    out
}

/// Rewrites the link `dest` of the document `current_file`: a well-formed URL
/// is returned unchanged, any other destination becomes `/?path=<path>`.
pub fn rewrite_link(dest: &str, current_file: &str, cwd: Option<&str>) -> (r: String)
    ensures
        r@ == rewritten(dest@, parses_as_url(dest@), current_file@, text_of(cwd)),
        parses_as_url(dest@) ==> r@ == dest@,
        !parses_as_url(dest@) ==> is_navigation_url(r@),
{
    let url = is_url(dest);
    let r = rewrite_link_classified(dest, url, current_file, cwd);
    if !url {
        assert(r@ == navigation_url(relativize(resolve(dest@, current_file@), text_of(cwd))));
    }
    r
}

} // verus!
