//! What the client gets back: status, headers, and which body transform applies.

use vstd::prelude::*;
use crate::error::{error_status, ProxyError};
use crate::headers::{filter_headers, forwardable, header_allowed};
use crate::request::upstream_headers;
use crate::manifest::{rewrite_dash, rewrite_hls, rewritten_dash, rewritten_hls};
use crate::query::first_value;
use crate::text::{pairs_view, same_str, Pair};

verus! {

broadcast use vstd::string::group_string_axioms;

/// The image re-encoding this build of the proxy performs, if any.
#[derive(Clone, Copy, Debug, PartialEq, Eq, Structural)]
pub enum Transcoder {
    Disabled,
    WebP,
    Avif,
}

/// A manifest format whose URLs are localized.
#[derive(Clone, Copy, Debug, PartialEq, Eq, Structural)]
pub enum ManifestKind {
    Hls,
    Dash,
}

/// What happens to an upstream response body.
#[derive(Clone, Copy, Debug, PartialEq, Eq, Structural)]
pub enum Transform {
    /// Streamed to the client unchanged.
    Passthrough,
    /// Buffered and localized.
    Manifest(ManifestKind),
    /// Buffered and re-encoded as WebP, if that makes it smaller.
    WebP,
    /// Buffered and re-encoded as AVIF.
    Avif,
}

/// A content type of an HLS playlist.
pub open spec fn is_hls_type(t: Seq<char>) -> bool {
    t == "application/x-mpegurl"@ || t == "application/vnd.apple.mpegurl"@
}

/// A content type of a DASH manifest.
pub open spec fn is_dash_type(t: Seq<char>) -> bool {
    t == "video/vnd.mpeg.dash.mpd"@ || t == "application/dash+xml"@
}

/// The transform for a body of content type `content_type`.
pub open spec fn transform_for(
    content_type: Option<Seq<char>>,
    rewrite: bool,
    avif: bool,
    transcoder: Transcoder,
) -> Transform {
    match content_type {
        None => Transform::Passthrough,
        Some(t) => if !rewrite {
            Transform::Passthrough
        } else if transcoder == Transcoder::Avif && (t == "image/webp"@ || (t == "image/jpeg"@
            && avif)) {
            Transform::Avif
        } else if transcoder == Transcoder::WebP && t == "image/jpeg"@ {
            Transform::WebP
        } else if is_hls_type(t) {
            Transform::Manifest(ManifestKind::Hls)
        } else if is_dash_type(t) {
            Transform::Manifest(ManifestKind::Dash)
        } else {
            Transform::Passthrough
        },
    }
}

/// Chooses the transform for an upstream body of content type
/// `content_type`. With `rewrite` off every body passes through.
pub fn choose_transform(
    content_type: Option<&str>,
    rewrite: bool,
    avif: bool,
    transcoder: Transcoder,
) -> (r: Transform)
    ensures
        r == transform_for(crate::domain::str_opt(content_type), rewrite, avif, transcoder),
        !rewrite ==> r == Transform::Passthrough,
{
    match content_type {
        None => Transform::Passthrough,
        Some(t) => {
            if !rewrite {
                Transform::Passthrough
            } else if transcoder == Transcoder::Avif && (same_str(t, "image/webp") || (same_str(
                t,
                "image/jpeg",
            ) && avif)) {
                Transform::Avif
            } else if transcoder == Transcoder::WebP && same_str(t, "image/jpeg") {
                Transform::WebP
            } else if same_str(t, "application/x-mpegurl") || same_str(
                t,
                "application/vnd.apple.mpegurl",
            ) {
                Transform::Manifest(ManifestKind::Hls)
            } else if same_str(t, "video/vnd.mpeg.dash.mpd") || same_str(t, "application/dash+xml") {
                Transform::Manifest(ManifestKind::Dash)
            } else {
                Transform::Passthrough
            }
        },
    }
}

/// A manifest of kind `kind` from `host`, localized.
pub open spec fn rewritten_manifest(kind: ManifestKind, text: Seq<char>, host: Seq<char>) -> Seq<char> {
    match kind {
        ManifestKind::Hls => rewritten_hls(text, host),
        ManifestKind::Dash => rewritten_dash(text, host),
    }
}

/// Localizes the manifest `text` of kind `kind`, fetched from `host`.
pub fn rewrite_manifest(kind: ManifestKind, text: &str, host: &str) -> (r: String)
    ensures
        r@ == rewritten_manifest(kind, text@, host@),
{
    match kind {
        ManifestKind::Hls => rewrite_hls(text, host),
        ManifestKind::Dash => rewrite_dash(text, host),
    }
}

/// An image body and its content type.
pub struct ImageBody {
    pub bytes: Vec<u8>,
    pub content_type: String,
}

/// Picks the body to send for an image after an attempt to re-encode it.
///
/// `encoded` is the re-encoded image, or `None` when decoding or encoding
/// failed. AVIF output is always taken; WebP output only when it is smaller
/// than the original. Otherwise the original bytes and content type are kept.
pub fn choose_image(
    transform: Transform,
    original: Vec<u8>,
    original_type: &str,
    encoded: Option<Vec<u8>>,
) -> (r: ImageBody)
    ensures
        match encoded {
            Some(e) => if transform == Transform::Avif {
                r.bytes@ == e@ && r.content_type@ == "image/avif"@
            } else if transform == Transform::WebP && e@.len() < original@.len() {
                r.bytes@ == e@ && r.content_type@ == "image/webp"@
            } else {
                r.bytes@ == original@ && r.content_type@ == original_type@
            },
            None => r.bytes@ == original@ && r.content_type@ == original_type@,
        },
{
    match encoded {
        Some(e) => {
            if transform == Transform::Avif {
                ImageBody { bytes: e, content_type: String::from_str("image/avif") }
            } else if transform == Transform::WebP && e.len() < original.len() {
                ImageBody { bytes: e, content_type: String::from_str("image/webp") }
            } else {
                ImageBody { bytes: original, content_type: String::from_str(original_type) }
            }
        },
        None => ImageBody { bytes: original, content_type: String::from_str(original_type) },
    }
}

/// The CORS headers on every response.
pub open spec fn cors() -> Seq<(Seq<char>, Seq<char>)> {
    seq![
        ("Access-Control-Allow-Origin"@, "*"@),
        ("Access-Control-Allow-Headers"@, "*"@),
        ("Access-Control-Allow-Methods"@, "*"@),
        ("Access-Control-Max-Age"@, "1728000"@),
    ]
}

/// The CORS headers on every response.
pub fn cors_headers() -> (r: Vec<Pair>)
    ensures
        pairs_view(r@) == cors(),
{
    let mut r: Vec<Pair> = Vec::new();
    r.push((String::from_str("Access-Control-Allow-Origin"), String::from_str("*")));
    r.push((String::from_str("Access-Control-Allow-Headers"), String::from_str("*")));
    r.push((String::from_str("Access-Control-Allow-Methods"), String::from_str("*")));
    r.push((String::from_str("Access-Control-Max-Age"), String::from_str("1728000")));
    assert(pairs_view(r@) =~= cors());
    r
}

/// The status line and headers of a response.
pub struct ResponseHead {
    pub status: u16,
    pub headers: Vec<Pair>,
}

/// The answer to an OPTIONS request: 200 with the CORS headers, and an empty
/// body.
pub fn preflight_response() -> (r: ResponseHead)
    ensures
        r.status == 200,
        pairs_view(r.headers@) == cors(),
{
    ResponseHead { status: 200, headers: cors_headers() }
}

/// The answer to a request that failed with `e`, with the CORS headers.
pub fn error_response(e: ProxyError) -> (r: ResponseHead)
    ensures
        r.status == error_status(e),
        pairs_view(r.headers@) == cors(),
{
    ResponseHead { status: e.status_code(), headers: cors_headers() }
}

/// The headers of the response to an upstream response with headers
/// `upstream`: CORS, then the forwardable upstream headers; a streamed body
/// also carries the upstream `content-length`, if there is one.
pub open spec fn response_headers(upstream: Seq<(Seq<char>, Seq<char>)>, streamed: bool) -> Seq<(Seq<char>, Seq<char>)> {
    let base = cors() + forwardable(upstream);
    match first_value(upstream, "content-length"@) {
        Some(len) => if streamed {
            base.push(("content-length"@, len))
        } else {
            base
        },
        None => base,
    }
}

/// The head of the response to an upstream response with status `status` and
/// headers `upstream`. `streamed` tells whether the body passes through
/// unchanged.
pub fn upstream_response(status: u16, upstream: &Vec<Pair>, streamed: bool) -> (r: ResponseHead)
    ensures
        r.status == status,
        pairs_view(r.headers@) == response_headers(pairs_view(upstream@), streamed),
{
    let mut headers = cors_headers();
    let kept = filter_headers(upstream);
    let ghost c = pairs_view(headers@);
    let mut i: usize = 0;
    while i < kept.len()
        invariant
            i <= kept.len(),
            c == cors(),
            pairs_view(headers@) == c + pairs_view(kept@).take(i as int),
        decreases kept.len() - i,
    {
        let ghost before = headers@;
        headers.push((kept[i].0.clone(), kept[i].1.clone()));
        assert(headers@.drop_last() =~= before);
        assert(pairs_view(kept@).take(i + 1) =~= pairs_view(kept@).take(i as int).push(
            pairs_view(kept@)[i as int],
        ));
        assert(pairs_view(headers@) =~= pairs_view(headers@.drop_last()).push(
            pairs_view(kept@)[i as int],
        ));
        i += 1;
    }
    assert(pairs_view(kept@).take(kept.len() as int) =~= pairs_view(kept@));
    if streamed {
        match crate::query::lookup(upstream, "content-length") {
            Some(len) => {
                let ghost before = headers@;
                headers.push((String::from_str("content-length"), len));
                assert(headers@.drop_last() =~= before);
                assert(pairs_view(headers@) =~= pairs_view(before).push(
                    ("content-length"@, len@),
                ));
            },
            None => {},
        }
    }
    ResponseHead { status, headers }
}

/// One header policy serves both directions: the headers sent upstream
/// (besides the mobile user agent) and those sent back to the client (besides
/// CORS and a streamed body's length) are exactly the forwardable ones, and a
/// header list holds a header in that result only if its name is allowed.
pub proof fn lemma_one_policy_both_ways(h: Seq<(Seq<char>, Seq<char>)>)
    ensures
        upstream_headers(h, false) == forwardable(h),
        first_value(h, "content-length"@) is None ==> response_headers(h, true) == cors()
            + forwardable(h),
        response_headers(h, false) == cors() + forwardable(h),
        forall|i: int| 0 <= i < forwardable(h).len() ==> header_allowed(#[trigger] forwardable(h)[i].0),
    decreases h.len(),
{
    if h.len() > 0 {
        lemma_one_policy_both_ways(h.drop_last());
        let f = forwardable(h.drop_last());
        if header_allowed(h.last().0) {
            assert forall|i: int| 0 <= i < forwardable(h).len() implies header_allowed(
                #[trigger] forwardable(h)[i].0,
            ) by {
                if i < f.len() {
                    assert(forwardable(h)[i] == f[i]);
                }
            }
        }
    }
}

} // verus!
