//! Rewriting upstream URLs so that they route back through the proxy.

use vstd::prelude::*;
use reqwest::Url;
use crate::text::{
    chars_of, contains_char, extend_chars, has_prefix, has_prefix_exec, has_suffix,
    has_suffix_exec, string_of,
};

verus! {

broadcast use vstd::string::group_string_axioms;

/// The host of the absolute URL `s`; `None` when `s` does not parse or has
/// no host.
pub uninterp spec fn url_host_of(s: Seq<char>) -> Option<Seq<char>>;

/// The path and query of the absolute URL `s` after the pair `key=value` was
/// appended to its query; `None` when `s` does not parse.
pub uninterp spec fn appended_parts(s: Seq<char>, key: Seq<char>, value: Seq<char>) -> Option<
    (Seq<char>, Seq<char>),
>;

/// Relies on reqwest's `Url` (the url crate): `Url::parse` and `host_str`.
#[verifier::external_body]
fn url_host(s: &str) -> (r: Option<String>)
    ensures
        match r {
            Some(h) => url_host_of(s@) == Some(h@),
            None => url_host_of(s@) is None,
        },
{
    Some(Url::parse(s).ok()?.host_str()?.to_string())
}

/// Relies on reqwest's `Url` (the url crate): `Url::parse`,
/// `query_pairs_mut().append_pair`, `path` and `query`.
#[verifier::external_body]
fn append_query_pair(s: &str, key: &str, value: &str) -> (r: Option<(String, String)>)
    ensures
        match r {
            Some(parts) => appended_parts(s@, key@, value@) == Some((parts.0@, parts.1@)),
            None => appended_parts(s@, key@, value@) is None,
        },
{
    let mut url = Url::parse(s).ok()?;
    url.query_pairs_mut().append_pair(key, value);
    Some((url.path().to_string(), url.query()?.to_string()))
}

/// The path and query of the absolute URL `url` with a `host` pair naming its
/// own host appended; `None` when it does not parse or has no host.
pub open spec fn with_own_host(url: Seq<char>) -> Option<(Seq<char>, Seq<char>)> {
    match url_host_of(url) {
        Some(h) => appended_parts(url, "host"@, h),
        None => None,
    }
}

/// A playlist or segment URL that is relative to the upstream host.
pub open spec fn is_relative_media(url: Seq<char>) -> bool {
    has_suffix(url, ".m3u8"@) || has_suffix(url, ".ts"@)
}

/// `url` localized, given `parts`, the outcome of parsing it and appending
/// its own host to its query.
pub open spec fn localized_from(
    url: Seq<char>,
    host: Seq<char>,
    parts: Option<(Seq<char>, Seq<char>)>,
) -> Seq<char> {
    if has_prefix(url, "https://"@) {
        match parts {
            Some((p, q)) => p + "?"@ + q,
            None => url,
        }
    } else if is_relative_media(url) {
        if url.contains('?') {
            url + "&host="@ + host
        } else {
            url + "?host="@ + host
        }
    } else {
        url
    }
}

/// `url` localized for a response that came from `host`: an absolute
/// `https` URL becomes its path and query with `host=<its own host>` added.
pub open spec fn localized(url: Seq<char>, host: Seq<char>) -> Seq<char> {
    localized_from(url, host, with_own_host(url))
}

/// Localizes `url`, found in a response from `host`, given `parts`: the path
/// and query of `url` with its own host appended as a `host` pair, or `None`
/// when `url` could not be parsed.
///
/// An absolute `https` URL becomes `path?query`; a relative playlist or
/// segment URL gets a `host` parameter; anything else is kept.
pub fn localize_with(url: &str, host: &str, parts: Option<(String, String)>) -> (r: String)
    ensures
        r@ == localized_from(
            url@,
            host@,
            match parts {
                Some(p) => Some((p.0@, p.1@)),
                None => None,
            },
        ),
{
    let u = chars_of(url);
    if has_prefix_exec(&u, &chars_of("https://")) {
        match parts {
            Some((p, q)) => {
                let mut v = chars_of(p.as_str());
                extend_chars(&mut v, &chars_of("?"));
                extend_chars(&mut v, &chars_of(q.as_str()));
                string_of(&v)
            },
            None => string_of(&u),
        }
    } else if has_suffix_exec(&u, &chars_of(".m3u8")) || has_suffix_exec(&u, &chars_of(".ts")) {
        let mut v = u.clone();
        if contains_char(&u, '?') {
            extend_chars(&mut v, &chars_of("&host="));
        } else {
            extend_chars(&mut v, &chars_of("?host="));
        }
        extend_chars(&mut v, &chars_of(host));
        string_of(&v)
    } else {
        string_of(&u)
    }
}

/// Localizes `url`, found in a response from `host`, so that a client fetches
/// it through the proxy.
pub fn localize_url(url: &str, host: &str) -> (r: String)
    ensures
        r@ == localized(url@, host@),
{
    let u = chars_of(url);
    let parts = if has_prefix_exec(&u, &chars_of("https://")) {
        match url_host(url) {
            Some(h) => append_query_pair(url, "host", h.as_str()),
            None => None,
        }
    } else {
        None
    };
    let r = localize_with(url, host, parts);
    proof {
        if !has_prefix(url@, "https://"@) {
            assert(localized_from(url@, host@, None) == localized(url@, host@));
        }
    }
    r
}

} // verus!
