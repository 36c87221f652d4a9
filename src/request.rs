//! Turning an inbound request into the request sent to the upstream host.

use vstd::prelude::*;
use crate::domain::{validate_host, validation, str_opt};
use crate::error::ProxyError;
use crate::headers::{filter_headers, forwardable};
use crate::query::{first_value, forwarded_params, query_pairs, query_string, Query};
use crate::text::{chars_of, extend_chars, pairs_view, same_str, string_of, Pair};

verus! {

broadcast use vstd::string::group_string_axioms;

/// The user agent of the mobile client, sent on its playback requests.
pub const ANDROID_USER_AGENT: &'static str = "com.google.android.youtube/1537338816 (Linux; U; Android 13; en_US; ; Build/TQ2A.230505.002; Cronet/113.0.5672.24)";

/// An HTTP request method, as far as the proxy tells them apart.
#[derive(Clone, Copy, Debug, PartialEq, Eq, Structural)]
pub enum HttpMethod {
    Get,
    Head,
    Post,
    Options,
    Other,
}

/// The request to send upstream.
pub struct UpstreamRequest {
    /// The method to use.
    pub method: HttpMethod,
    /// The absolute `https` URL.
    pub url: String,
    /// The body, if any.
    pub body: Option<Vec<u8>>,
    /// The headers, in order; a later one replaces an earlier one of the same name.
    pub headers: Vec<Pair>,
    /// The validated upstream host.
    pub host: String,
    /// Whether response bodies may be rewritten.
    pub rewrite: bool,
    /// Whether JPEG images may be re-encoded as AVIF.
    pub avif: bool,
}

/// What to do with an inbound request.
pub enum Plan {
    /// Answer at once with the CORS headers and an empty body.
    Preflight,
    /// Send this request upstream.
    Forward(UpstreamRequest),
}

/// The body sent with desktop playback requests, which must be POSTed.
pub open spec fn sentinel_body() -> Seq<u8> {
    seq![120u8, 0u8]
}

/// The path of a video-playback request.
pub open spec fn is_playback_path(path: Seq<char>) -> bool {
    path == "/videoplayback"@
}

/// A playback request of the mobile client: `c=ANDROID` on a playback path.
pub open spec fn is_android_request(path: Seq<char>, q: Seq<(Seq<char>, Seq<char>)>) -> bool {
    is_playback_path(path) && first_value(q, "c"@) == Some("ANDROID"@)
}

/// The URL of the upstream request.
pub open spec fn upstream_url(host: Seq<char>, path: Seq<char>, q: Seq<(Seq<char>, Seq<char>)>) -> Seq<char> {
    "https://"@ + host + path + "?"@ + query_string(forwarded_params(q))
}

/// The headers of the upstream request.
pub open spec fn upstream_headers(
    inbound: Seq<(Seq<char>, Seq<char>)>,
    android: bool,
) -> Seq<(Seq<char>, Seq<char>)> {
    if android {
        forwardable(inbound).push(("user-agent"@, ANDROID_USER_AGENT@))
    } else {
        forwardable(inbound)
    }
}

/// `r` is the upstream request for a GET or HEAD request `method` to `path`
/// with query pairs `q` and headers `inbound`, whose host `host` passed the
/// allow-list.
pub open spec fn is_upstream_request(
    r: UpstreamRequest,
    method: HttpMethod,
    path: Seq<char>,
    q: Seq<(Seq<char>, Seq<char>)>,
    inbound: Seq<(Seq<char>, Seq<char>)>,
    host: Seq<char>,
) -> bool {
    let android = is_android_request(path, q);
    let desktop_playback = is_playback_path(path) && !android;
    &&& r.method == (if desktop_playback { HttpMethod::Post } else { method })
    &&& r.url@ == upstream_url(host, path, q)
    &&& (if desktop_playback {
        r.body matches Some(b) && b@ == sentinel_body()
    } else {
        r.body is None
    })
    &&& pairs_view(r.headers@) == upstream_headers(inbound, android)
    &&& r.host@ == host
    &&& r.rewrite == (first_value(q, "rewrite"@) != Some("false"@))
    &&& r.avif == (first_value(q, "avif"@) == Some("true"@))
}

fn concat_url(host: &str, path: &str, query: &str) -> (r: String)
    ensures
        r@ == "https://"@ + host@ + path@ + "?"@ + query@,
{
    let mut v = chars_of("https://");
    extend_chars(&mut v, &chars_of(host));
    extend_chars(&mut v, &chars_of(path));
    extend_chars(&mut v, &chars_of("?"));
    extend_chars(&mut v, &chars_of(query));
    string_of(&v)
}

/// Decides what to do with an inbound request with method `method`, path
/// `path`, raw query string `query` (ASCII, as in any HTTP request target)
/// and (name, value) headers `headers`.
///
/// OPTIONS is answered at once; methods other than GET and HEAD are refused;
/// otherwise the `host` parameter must pass the allow-list, and the result is
/// the request to send upstream. Nothing is sent upstream on an error.
pub fn plan_request(method: HttpMethod, path: &str, query: &str, headers: &Vec<Pair>) -> (r:
    Result<Plan, ProxyError>)
    requires
        vstd::string::is_ascii(query),
    ensures
        method == HttpMethod::Options ==> r matches Ok(Plan::Preflight),
        method != HttpMethod::Options && method != HttpMethod::Get && method != HttpMethod::Head
            ==> r == Err::<Plan, ProxyError>(ProxyError::MethodNotAllowed),
        method == HttpMethod::Get || method == HttpMethod::Head ==> {
            let q = query_pairs(query@);
            match validation(first_value(q, "host"@)) {
                Err(e) => r == Err::<Plan, ProxyError>(e),
                Ok(_) => r matches Ok(Plan::Forward(u)) && first_value(q, "host"@) == Some(u.host@)
                    && is_upstream_request(u, method, path@, q, pairs_view(headers@), u.host@),
            }
        },
{
    match method {
        HttpMethod::Options => {
            return Ok(Plan::Preflight);
        },
        HttpMethod::Get => {},
        HttpMethod::Head => {},
        _ => {
            return Err(ProxyError::MethodNotAllowed);
        },
    }
    let q = Query::parse(query);
    let host_param = q.get("host");
    let host = match host_param {
        None => {
            return Err(ProxyError::MissingHost);
        },
        Some(h) => h,
    };
    match validate_host(Some(host.as_str())) {
        Err(e) => {
            return Err(e);
        },
        Ok(_) => {},
    }
    let rewrite = !q.has_value("rewrite", "false");
    let avif = q.has_value("avif", "true");
    let playback = same_str(path, "/videoplayback");
    let android = playback && q.has_value("c", "ANDROID");
    let url = concat_url(host.as_str(), path, q.forwarded().as_str());
    let mut out_headers = filter_headers(headers);
    if android {
        out_headers.push((String::from_str("user-agent"), String::from_str(ANDROID_USER_AGENT)));
        assert(pairs_view(out_headers@) =~= pairs_view(out_headers@.drop_last()).push(
            ("user-agent"@, ANDROID_USER_AGENT@),
        ));
    }
    let desktop_playback = playback && !android;
    let out_method = if desktop_playback {
        HttpMethod::Post
    } else {
        method
    };
    let body = if desktop_playback {
        Some(vec![120u8, 0u8])
    } else {
        None
    };
    proof {
        if desktop_playback {
            assert(body.unwrap()@ =~= sentinel_body());
        }
    }
    let u = UpstreamRequest { method: out_method, url, body, headers: out_headers, host, rewrite, avif };
    assert(u.method == (if desktop_playback { HttpMethod::Post } else { method }));
    assert(u.url@ == upstream_url(u.host@, path@, query_pairs(query@)));
    assert(pairs_view(u.headers@) == upstream_headers(pairs_view(headers@), android));
    assert(u.rewrite == (first_value(query_pairs(query@), "rewrite"@) != Some("false"@)));
    assert(android == is_android_request(path@, query_pairs(query@)));
    Ok(Plan::Forward(u))
}

} // verus!
