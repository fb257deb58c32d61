//! The parts of a URL the library reads, as parsed by the `url` crate.
//!
//! Parsing follows the WHATWG URL standard, which takes pages to state, so
//! each accessor's result is given a name here: the contracts of the rest
//! of the crate are stated over those names. Every wrapper parses its
//! argument afresh with `url::Url::parse`; a string that does not parse
//! reads as "no scheme", "no host" and so on.

use vstd::prelude::*;

use crate::text::{opt_view, views};

verus! {

/// `Url::scheme` of `url::Url::parse(s)`; `None` when `s` does not parse.
pub uninterp spec fn parsed_scheme(s: Seq<char>) -> Option<Seq<char>>;

/// `Url::host_str` of `url::Url::parse(s)`; `None` when `s` does not parse
/// or the URL has no host.
pub uninterp spec fn parsed_host(s: Seq<char>) -> Option<Seq<char>>;

/// `Url::port` of `url::Url::parse(s)`; `None` when `s` does not parse or
/// carries no port other than its scheme's default.
pub uninterp spec fn parsed_port(s: Seq<char>) -> Option<u16>;

/// Whether `Url::host` of `url::Url::parse(s)` is an IPv4 address.
pub uninterp spec fn parsed_host_is_ipv4(s: Seq<char>) -> bool;

/// `Url::path_segments` of `url::Url::parse(s)`, collected; `None` when
/// `s` does not parse or the URL cannot be a base.
pub uninterp spec fn parsed_path_segments(s: Seq<char>) -> Option<Seq<Seq<char>>>;

/// `Url::query_pairs` of `url::Url::parse(s)`, decoded and collected;
/// `None` when `s` does not parse.
pub uninterp spec fn parsed_query_pairs(s: Seq<char>) -> Option<Seq<(Seq<char>, Seq<char>)>>;

/// `Url::path` of `url::Url::parse(s)`; `None` when `s` does not parse.
pub uninterp spec fn parsed_path(s: Seq<char>) -> Option<Seq<char>>;

/// The serialization (`Url::as_str`) of `url::Url::parse(s)`; `None` when
/// `s` does not parse.
pub uninterp spec fn serialized(s: Seq<char>) -> Option<Seq<char>>;

/// `percent_encoding::percent_decode_str(s).decode_utf8_lossy()`.
pub uninterp spec fn percent_decoded(s: Seq<char>) -> Seq<char>;

/// The views of a list of string pairs.
pub open spec fn pair_views(v: Seq<(String, String)>) -> Seq<(Seq<char>, Seq<char>)> {
    v.map_values(|p: (String, String)| (p.0@, p.1@))
}

/// Parses `s` with `url::Url::parse` and returns `Url::scheme`, which the
/// `url` crate documents as lower-cased ASCII; nothing else is claimed.
#[verifier::external_body]
pub(crate) fn url_scheme(s: &str) -> (r: Option<String>)
    ensures
        opt_view(r) == parsed_scheme(s@),
{
    url::Url::parse(s).ok().map(|u| u.scheme().to_string())
}

/// Parses `s` with `url::Url::parse` and returns `Url::host_str`.
#[verifier::external_body]
pub(crate) fn url_host(s: &str) -> (r: Option<String>)
    ensures
        opt_view(r) == parsed_host(s@),
{
    url::Url::parse(s).ok().and_then(|u| u.host_str().map(|h| h.to_string()))
}

/// Parses `s` with `url::Url::parse` and returns `Url::port`.
#[verifier::external_body]
pub(crate) fn url_port(s: &str) -> (r: Option<u16>)
    ensures
        r == parsed_port(s@),
{
    url::Url::parse(s).ok().and_then(|u| u.port())
}

/// Parses `s` with `url::Url::parse` and tells whether `Url::host` is the
/// `Host::Ipv4` variant.
#[verifier::external_body]
pub(crate) fn url_host_is_ipv4(s: &str) -> (r: bool)
    ensures
        r == parsed_host_is_ipv4(s@),
{
    match url::Url::parse(s) {
        Ok(u) => matches!(u.host(), Some(url::Host::Ipv4(_))),
        Err(_) => false,
    }
}

/// Parses `s` with `url::Url::parse` and collects `Url::path_segments`.
#[verifier::external_body]
pub(crate) fn url_path_segments(s: &str) -> (r: Option<Vec<String>>)
    ensures
        match r {
            Some(v) => parsed_path_segments(s@) == Some(views(v@)),
            None => parsed_path_segments(s@) is None,
        },
{
    url::Url::parse(s).ok().and_then(
        |u| u.path_segments().map(|it| it.map(|x| x.to_string()).collect()),
    )
}

/// Parses `s` with `url::Url::parse` and collects the decoded
/// `Url::query_pairs`, in order.
#[verifier::external_body]
pub(crate) fn url_query_pairs(s: &str) -> (r: Option<Vec<(String, String)>>)
    ensures
        match r {
            Some(v) => parsed_query_pairs(s@) == Some(pair_views(v@)),
            None => parsed_query_pairs(s@) is None,
        },
{
    url::Url::parse(s).ok().map(
        |u| u.query_pairs().map(|(k, v)| (k.into_owned(), v.into_owned())).collect(),
    )
}

/// The serialization of `base`, parsed, with `pairs` appended to its
/// query form-encoded (`Url::query_pairs_mut().append_pair`), if `base`
/// parses.
pub uninterp spec fn with_query(base: Seq<char>, pairs: Seq<(Seq<char>, Seq<char>)>) -> Option<Seq<char>>;

/// Parses `base` with `url::Url::parse`, appends every pair to its query
/// with `append_pair`, and serializes it.
#[verifier::external_body]
pub(crate) fn url_with_query(base: &str, pairs: &Vec<(String, String)>) -> (r: Option<String>)
    ensures
        opt_view(r) == with_query(base@, pair_views(pairs@)),
{
    url::Url::parse(base).ok().map(|mut u| {
        u.query_pairs_mut().extend_pairs(pairs.iter());
        u.to_string()
    })
}

/// Parses `s` with `url::Url::parse` and returns `Url::path`.
#[verifier::external_body]
pub(crate) fn url_path(s: &str) -> (r: Option<String>)
    ensures
        opt_view(r) == parsed_path(s@),
{
    url::Url::parse(s).ok().map(|u| u.path().to_string())
}

/// Parses `s` with `url::Url::parse` and returns its serialization.
#[verifier::external_body]
pub(crate) fn url_serialized(s: &str) -> (r: Option<String>)
    ensures
        opt_view(r) == serialized(s@),
{
    url::Url::parse(s).ok().map(|u| u.as_str().to_string())
}

/// `percent_encoding::percent_decode_str(s).decode_utf8_lossy()`, owned.
#[verifier::external_body]
pub(crate) fn percent_decode(s: &str) -> (r: String)
    ensures
        r@ == percent_decoded(s@),
{
    percent_encoding::percent_decode_str(s).decode_utf8_lossy().into_owned()
}

} // verus!
