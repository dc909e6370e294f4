//! URL parsing through the `url` crate, seen as functions from strings to strings.
use vstd::prelude::*;

verus! {

/// What the crawler reads of a parsed URL.
pub struct UrlParts {
    /// `Url::origin().ascii_serialization()`, e.g. `https://example.com`.
    pub origin: String,
    /// `Url::path()`.
    pub path: String,
    /// `Url::query()`.
    pub query: Option<String>,
    /// The URL with its fragment removed, serialized.
    pub without_fragment: String,
    /// `Url::scheme()`.
    pub scheme: String,
}

/// Names what `url::Url::parse` makes of a string: success, or the message of its error.
pub uninterp spec fn url_parse_result(s: Seq<char>) -> Result<(), Seq<char>>;

/// `url::Url::parse` accepts the string.
pub open spec fn url_parses(s: Seq<char>) -> bool {
    url_parse_result(s) is Ok
}

/// The message of the error `url::Url::parse` reports for a string it rejects.
pub open spec fn url_parse_error(s: Seq<char>) -> Seq<char> {
    match url_parse_result(s) {
        Err(e) => e,
        Ok(()) => seq![],
    }
}

/// Names the serialized origin of the URL parsed from a string.
pub uninterp spec fn url_origin(s: Seq<char>) -> Seq<char>;

/// Names the path of the URL parsed from a string.
pub uninterp spec fn url_path(s: Seq<char>) -> Seq<char>;

/// Names the query of the URL parsed from a string.
pub uninterp spec fn url_query(s: Seq<char>) -> Option<Seq<char>>;

/// Names the serialization of the URL parsed from a string, without its fragment.
pub uninterp spec fn url_without_fragment(s: Seq<char>) -> Seq<char>;

/// Names the scheme of the URL parsed from a string.
pub uninterp spec fn url_scheme(s: Seq<char>) -> Seq<char>;

/// Names the serialization of `href` resolved against the URL parsed from `base`
/// (`Url::join`), or `None` when either step fails.
pub uninterp spec fn url_joined(base: Seq<char>, href: Seq<char>) -> Option<Seq<char>>;

/// `url::Url::parse`, then `origin().ascii_serialization()`, `path()`, `query()`, `scheme()`
/// and the serialization after `set_fragment(None)`.
/// Trusted: success and each part are the names above applied to `s`; nothing else is stated.
#[verifier::external_body]
pub(crate) fn parse_url(s: &str) -> (r: Result<UrlParts, String>)
    ensures
        r is Ok <==> url_parse_result(s@) is Ok,
        r matches Ok(p) ==> {
            &&& p.origin@ == url_origin(s@)
            &&& p.path@ == url_path(s@)
            &&& crate::text::opt_view(p.query) == url_query(s@)
            &&& p.without_fragment@ == url_without_fragment(s@)
            &&& p.scheme@ == url_scheme(s@)
        },
        r matches Err(e) ==> url_parse_result(s@) is Err && url_parse_result(s@)->Err_0 == e@,
{
    match url::Url::parse(s) {
        Ok(u) => {
            let mut clean = u.clone();
            clean.set_fragment(None);
            Ok(UrlParts {
                origin: u.origin().ascii_serialization(),
                path: u.path().to_string(),
                query: u.query().map(|q| q.to_string()),
                without_fragment: clean.to_string(),
                scheme: u.scheme().to_string(),
            })
        },
        Err(e) => Err(e.to_string()),
    }
}

/// `url::Url::parse(base)` followed by `Url::join(href)`, serialized.
/// Trusted: the result is `url_joined(base, href)`.
#[verifier::external_body]
pub(crate) fn join_url(base: &str, href: &str) -> (r: Option<String>)
    ensures
        crate::text::opt_view(r) == url_joined(base@, href@),
{
    url::Url::parse(base).ok()?.join(href).ok().map(|u| u.to_string())
}

} // verus!
