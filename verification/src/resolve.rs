use vstd::prelude::*;

use crate::errors::WebsiteDownloaderError;

verus! {

/// The result of resolving a reference against a base URL by standard
/// relative-URL resolution: the serialized absolute URL, or `None` when the
/// base or the reference is malformed. A function of the two strings alone;
/// contracts only carry the name.
pub uninterp spec fn joined_url(base: Seq<char>, reference: Seq<char>) -> Option<Seq<char>>;

/// The final path segment of a URL string: `None` when the string does not
/// parse as a URL or the URL has no path segments at all. A URL whose path
/// ends in `/` has a final segment, the empty one.
pub uninterp spec fn url_last_segment(resolved: Seq<char>) -> Option<Seq<char>>;

/// Relies on url: `Url::parse` on the base followed by `Url::join` on the
/// reference performs standard relative-URL resolution, a function of the two
/// strings alone; the serialized result is returned. `Err` carries the parse
/// error's message.
#[verifier::external_body]
pub(crate) fn join_url(base: &str, reference: &str) -> (r: Result<String, String>)
    ensures
        r matches Ok(s) ==> joined_url(base@, reference@) == Some(s@),
        r is Ok <==> joined_url(base@, reference@) is Some,
{
    match url::Url::parse(base).and_then(|u| u.join(reference)) {
        Ok(u) => Ok(u.as_str().to_string()),
        Err(e) => Err(format!("{}", e)),
    }
}

/// Relies on url: `Url::parse` followed by `Url::path_segments`; the last
/// segment of the split path is a function of the URL string alone. `None`
/// when the string does not parse or the URL cannot have path segments.
#[verifier::external_body]
pub(crate) fn last_path_segment(resolved: &str) -> (r: Option<String>)
    ensures
        r matches Some(s) ==> url_last_segment(resolved@) == Some(s@),
        r is None <==> url_last_segment(resolved@) is None,
{
    match url::Url::parse(resolved) {
        Ok(u) => u.path_segments().and_then(|segments| segments.last()).map(|s| s.to_string()),
        Err(_) => None,
    }
}

/// Resolves one asset reference against the page's own URL. Absolute
/// references pass through unchanged, protocol-relative and path-relative
/// ones are joined per standard URL semantics; a malformed base or reference
/// is a `UrlParseError`.
pub fn resolve_asset_url(base_url: &str, reference: &str) -> (r: Result<String, WebsiteDownloaderError>)
    ensures
        r matches Ok(s) ==> joined_url(base_url@, reference@) == Some(s@),
        r is Ok <==> joined_url(base_url@, reference@) is Some,
        r matches Err(e) ==> e is UrlParseError,
{
    match join_url(base_url, reference) {
        Ok(s) => Ok(s),
        Err(message) => Err(WebsiteDownloaderError::UrlParseError(message)),
    }
}

} // verus!
