use media_proxy::assets::{get_patched_asset, patch_assets};
use media_proxy::config::{authority_of, backend_port, pick_address, Addresses, Backend};
use media_proxy::content::{file_content_type, get_content_type, ContentTypeError};
use media_proxy::domain::{registrable_domain_of, validate_host};
use media_proxy::error::ProxyError;
use media_proxy::headers::{filter_headers, is_forwardable, is_header_allowed, Direction};
use media_proxy::localize::{localize_url, localize_with};
use media_proxy::manifest::{rewrite_dash, rewrite_hls};
use media_proxy::request::{plan_request, HttpMethod, Plan, UpstreamRequest, ANDROID_USER_AGENT};
use media_proxy::response::{
    choose_image, choose_transform, error_response, preflight_response, rewrite_manifest,
    upstream_response, ManifestKind, Transcoder, Transform,
};

fn pair(a: &str, b: &str) -> (String, String) {
    (a.to_string(), b.to_string())
}

fn forward(method: HttpMethod, path: &str, query: &str, headers: &[(&str, &str)]) -> UpstreamRequest {
    let hs: Vec<(String, String)> = headers.iter().map(|(a, b)| pair(a, b)).collect();
    match plan_request(method, path, query, &hs) {
        Ok(Plan::Forward(u)) => u,
        Ok(Plan::Preflight) => panic!("unexpected preflight"),
        Err(e) => panic!("unexpected error {:?}", e),
    }
}

fn cors() -> Vec<(String, String)> {
    vec![
        pair("Access-Control-Allow-Origin", "*"),
        pair("Access-Control-Allow-Headers", "*"),
        pair("Access-Control-Allow-Methods", "*"),
        pair("Access-Control-Max-Age", "1728000"),
    ]
}

#[test]
fn header_policy_strips_listed_names() {
    for name in [
        "host",
        "content-length",
        "set-cookie",
        "alt-svc",
        "accept-ch",
        "report-to",
        "strict-transport-security",
        "user-agent",
        "access-control-allow-origin",
        "access-control",
    ] {
        assert!(!is_header_allowed(name), "{}", name);
    }
    for name in ["content-type", "range", "accept", "cache-control", "hostname", "x-access-control"] {
        assert!(is_header_allowed(name), "{}", name);
    }
}

#[test]
fn header_policy_ignores_case() {
    for name in ["Host", "HOST", "Content-Length", "Set-Cookie", "User-Agent", "Access-Control-Allow-Origin", "STRICT-TRANSPORT-SECURITY"] {
        assert!(!is_header_allowed(name), "{}", name);
        assert!(!is_forwardable(name, Direction::Outbound), "{}", name);
    }
    for name in ["Content-Type", "RANGE", "Accept"] {
        assert!(is_header_allowed(name), "{}", name);
    }
    let hs = vec![pair("Host", "a"), pair("Range", "bytes=0-"), pair("USER-AGENT", "x")];
    assert_eq!(filter_headers(&hs), vec![pair("Range", "bytes=0-")]);
    assert_eq!(error_response(ProxyError::InvalidQuery).status, 400);
}

#[test]
fn header_policy_same_both_ways() {
    for name in ["range", "host", "set-cookie", "etag"] {
        assert_eq!(is_forwardable(name, Direction::Inbound), is_forwardable(name, Direction::Outbound));
        assert_eq!(is_forwardable(name, Direction::Inbound), is_header_allowed(name));
    }
}

#[test]
fn header_filter_keeps_order_and_is_idempotent() {
    let hs = vec![
        pair("range", "bytes=0-"),
        pair("host", "a"),
        pair("accept", "*/*"),
        pair("set-cookie", "x=1"),
        pair("range", "bytes=5-"),
    ];
    let once = filter_headers(&hs);
    assert_eq!(once, vec![pair("range", "bytes=0-"), pair("accept", "*/*"), pair("range", "bytes=5-")]);
    assert_eq!(filter_headers(&once), once);
}

#[test]
fn validation_accepts_deep_subdomains() {
    assert_eq!(validate_host(Some("rr1---sn-abc.googlevideo.com")), Ok("googlevideo.com".to_string()));
    assert_eq!(validate_host(Some("a.b.c.d.i.ytimg.com")), Ok("ytimg.com".to_string()));
    assert_eq!(validate_host(Some("youtube.com")), Ok("youtube.com".to_string()));
    assert_eq!(validate_host(Some("yt3.ggpht.com")), Ok("ggpht.com".to_string()));
}

#[test]
fn validation_errors() {
    assert_eq!(validate_host(None), Err(ProxyError::MissingHost));
    assert_eq!(validate_host(Some("localhost")), Err(ProxyError::InvalidHost));
    assert_eq!(validate_host(Some("WWW.YOUTUBE.COM")), Err(ProxyError::InvalidHost));
    assert_eq!(validate_host(Some("a.youtube.com/x")), Err(ProxyError::InvalidHost));
    assert_eq!(validate_host(Some("evil.com")), Err(ProxyError::DomainNotAllowed));
    assert_eq!(validate_host(Some("youtube.com.evil.com")), Err(ProxyError::DomainNotAllowed));
    assert_eq!(validate_host(Some("notyoutube.com.")), Err(ProxyError::DomainNotAllowed));
}

#[test]
fn registrable_domain_is_last_two_labels() {
    assert_eq!(registrable_domain_of("a.b.example.com"), Some("example.com".to_string()));
    assert_eq!(registrable_domain_of("example.com"), Some("example.com".to_string()));
    assert_eq!(registrable_domain_of(".com"), Some(".com".to_string()));
    assert_eq!(registrable_domain_of("com"), None);
}

#[test]
fn error_statuses() {
    assert_eq!(ProxyError::MissingHost.status_code(), 400);
    assert_eq!(ProxyError::InvalidHost.status_code(), 400);
    assert_eq!(ProxyError::DomainNotAllowed.status_code(), 400);
    assert_eq!(ProxyError::MethodNotAllowed.status_code(), 405);
    assert_eq!(ProxyError::Upstream.status_code(), 502);
    let r = error_response(ProxyError::MethodNotAllowed);
    assert_eq!(r.status, 405);
    assert_eq!(r.headers, cors());
}

#[test]
fn options_is_answered_without_host() {
    let none: Vec<(String, String)> = vec![];
    assert!(matches!(plan_request(HttpMethod::Options, "/anything", "", &none), Ok(Plan::Preflight)));
    assert!(matches!(
        plan_request(HttpMethod::Options, "/x", "host=evil.com", &none),
        Ok(Plan::Preflight)
    ));
    let r = preflight_response();
    assert_eq!(r.status, 200);
    assert_eq!(r.headers, cors());
}

#[test]
fn other_methods_are_refused() {
    let none: Vec<(String, String)> = vec![];
    for m in [HttpMethod::Post, HttpMethod::Other] {
        assert!(matches!(
            plan_request(m, "/x", "host=i.ytimg.com", &none),
            Err(ProxyError::MethodNotAllowed)
        ));
    }
}

#[test]
fn disallowed_host_is_not_forwarded() {
    let none: Vec<(String, String)> = vec![];
    assert!(matches!(
        plan_request(HttpMethod::Get, "/x", "host=evil.com", &none),
        Err(ProxyError::DomainNotAllowed)
    ));
    assert!(matches!(plan_request(HttpMethod::Get, "/x", "a=b", &none), Err(ProxyError::MissingHost)));
    assert!(matches!(
        plan_request(HttpMethod::Head, "/x", "host=bad_host", &none),
        Err(ProxyError::InvalidHost)
    ));
}

#[test]
fn get_request_url_and_flags() {
    let u = forward(
        HttpMethod::Get,
        "/vi/abc/hqdefault.jpg",
        "host=i.ytimg.com&foo=bar&rewrite=false&baz=1",
        &[("range", "bytes=0-"), ("host", "proxy.local"), ("user-agent", "curl")],
    );
    assert_eq!(u.method, HttpMethod::Get);
    assert_eq!(u.url, "https://i.ytimg.com/vi/abc/hqdefault.jpg?foo=bar&baz=1");
    assert_eq!(u.body, None);
    assert_eq!(u.headers, vec![pair("range", "bytes=0-")]);
    assert_eq!(u.host, "i.ytimg.com");
    assert!(!u.rewrite);
    assert!(!u.avif);
}

#[test]
fn rewrite_defaults_on_and_avif_flag() {
    let u = forward(HttpMethod::Head, "/x", "host=i.ytimg.com&rewrite=true&avif=true", &[]);
    assert_eq!(u.method, HttpMethod::Head);
    assert!(u.rewrite);
    assert!(u.avif);
    assert_eq!(u.url, "https://i.ytimg.com/x?");
    let v = forward(HttpMethod::Get, "/x", "host=i.ytimg.com&rewrite=no", &[]);
    assert!(v.rewrite);
}

#[test]
fn android_playback_keeps_get_and_sets_user_agent() {
    let u = forward(
        HttpMethod::Get,
        "/videoplayback",
        "host=rr1---sn-abc.googlevideo.com&c=ANDROID&itag=18",
        &[("user-agent", "browser"), ("range", "bytes=0-")],
    );
    assert_eq!(u.method, HttpMethod::Get);
    assert_eq!(u.body, None);
    assert_eq!(u.url, "https://rr1---sn-abc.googlevideo.com/videoplayback?c=ANDROID&itag=18");
    assert_eq!(u.headers, vec![pair("range", "bytes=0-"), pair("user-agent", ANDROID_USER_AGENT)]);
}

#[test]
fn desktop_playback_is_posted_with_sentinel() {
    let u = forward(HttpMethod::Get, "/videoplayback", "host=rr1.googlevideo.com&c=WEB", &[]);
    assert_eq!(u.method, HttpMethod::Post);
    assert_eq!(u.body, Some(vec![b'x', 0u8]));
    assert_eq!(u.headers, vec![]);
    let v = forward(HttpMethod::Get, "/videoplayback", "host=rr1.googlevideo.com", &[]);
    assert_eq!(v.method, HttpMethod::Post);
    let w = forward(HttpMethod::Get, "/other", "host=rr1.googlevideo.com&c=WEB", &[]);
    assert_eq!(w.method, HttpMethod::Get);
    assert_eq!(w.body, None);
}

#[test]
fn localize_absolute_url() {
    assert_eq!(localize_url("https://foo.googlevideo.com/seg1", "x.com"), "/seg1?host=foo.googlevideo.com");
    assert_eq!(
        localize_url("https://cdn.example.com/a/b?x=1", "x.com"),
        "/a/b?x=1&host=cdn.example.com"
    );
}

#[test]
fn localize_relative_media() {
    assert_eq!(localize_url("seg-1.ts", "rr1.googlevideo.com"), "seg-1.ts?host=rr1.googlevideo.com");
    assert_eq!(localize_url("index.m3u8?a=b", "h.com"), "index.m3u8?a=b");
    assert_eq!(localize_url("seg?n=1.ts", "h.com"), "seg?n=1.ts&host=h.com");
    assert_eq!(localize_url("#EXTM3U", "h.com"), "#EXTM3U");
    assert_eq!(localize_url("", "h.com"), "");
}

#[test]
fn localize_with_given_parts() {
    assert_eq!(
        localize_with("https://a.com/p", "h", Some(("/p".to_string(), "host=a.com".to_string()))),
        "/p?host=a.com"
    );
    assert_eq!(localize_with("https://a.com/p", "h", None), "https://a.com/p");
    assert_eq!(localize_with("x.ts", "h", None), "x.ts?host=h");
}

#[test]
fn hls_key_uri_is_localized() {
    let line = "#EXT-X-KEY:METHOD=AES-128,URI=\"https://foo.googlevideo.com/seg1\"";
    assert_eq!(
        rewrite_hls(line, "manifest.googlevideo.com"),
        "#EXT-X-KEY:METHOD=AES-128,URI=\"/seg1?host=foo.googlevideo.com\""
    );
}

#[test]
fn hls_playlist_lines() {
    let text = "#EXTM3U\r\n#EXT-X-MEDIA:URI=\"rel.m3u8\"\nseg1.ts\nhttps://a.googlevideo.com/s2\n";
    assert_eq!(
        rewrite_hls(text, "h.com"),
        "#EXTM3U\n#EXT-X-MEDIA:URI=\"rel.m3u8\"\nseg1.ts?host=h.com\n/s2?host=a.googlevideo.com"
    );
    assert_eq!(rewrite_hls("", "h.com"), "");
    assert_eq!(rewrite_hls("\n\n", "h.com"), "\n");
}

#[test]
fn dash_base_urls_are_localized() {
    assert_eq!(
        rewrite_dash("<BaseURL>https://cdn.example.com/x</BaseURL>", "manifest.googlevideo.com"),
        "<BaseURL>/x?host=cdn.example.com</BaseURL>"
    );
    let text = "<MPD><BaseURL>https://a.googlevideo.com/1</BaseURL><BaseURL>https://b.googlevideo.com/2</BaseURL><BaseURL>rel/</BaseURL></MPD>";
    assert_eq!(
        rewrite_manifest(ManifestKind::Dash, text, "h"),
        "<MPD><BaseURL>/1?host=a.googlevideo.com</BaseURL><BaseURL>/2?host=b.googlevideo.com</BaseURL><BaseURL>rel/</BaseURL></MPD>"
    );
}

#[test]
fn transform_choice() {
    let hls = Some("application/vnd.apple.mpegurl");
    assert_eq!(choose_transform(hls, true, false, Transcoder::Disabled), Transform::Manifest(ManifestKind::Hls));
    assert_eq!(choose_transform(hls, false, false, Transcoder::Disabled), Transform::Passthrough);
    assert_eq!(
        choose_transform(Some("application/dash+xml"), true, false, Transcoder::Disabled),
        Transform::Manifest(ManifestKind::Dash)
    );
    assert_eq!(choose_transform(Some("image/jpeg"), true, false, Transcoder::WebP), Transform::WebP);
    assert_eq!(choose_transform(Some("image/jpeg"), false, false, Transcoder::WebP), Transform::Passthrough);
    assert_eq!(choose_transform(Some("image/jpeg"), true, false, Transcoder::Avif), Transform::Passthrough);
    assert_eq!(choose_transform(Some("image/jpeg"), true, true, Transcoder::Avif), Transform::Avif);
    assert_eq!(choose_transform(Some("image/webp"), true, false, Transcoder::Avif), Transform::Avif);
    assert_eq!(choose_transform(Some("image/jpeg"), true, true, Transcoder::Disabled), Transform::Passthrough);
    assert_eq!(choose_transform(None, true, true, Transcoder::Avif), Transform::Passthrough);
    assert_eq!(choose_transform(Some("video/mp4"), true, false, Transcoder::Disabled), Transform::Passthrough);
}

#[test]
fn image_fallbacks() {
    let orig = vec![1u8, 2, 3, 4];
    let r = choose_image(Transform::Avif, orig.clone(), "image/webp", None);
    assert_eq!((r.bytes, r.content_type.as_str()), (orig.clone(), "image/webp"));
    let r = choose_image(Transform::Avif, orig.clone(), "image/jpeg", Some(vec![9u8; 10]));
    assert_eq!((r.bytes, r.content_type.as_str()), (vec![9u8; 10], "image/avif"));
    let r = choose_image(Transform::WebP, orig.clone(), "image/jpeg", Some(vec![9u8; 2]));
    assert_eq!((r.bytes, r.content_type.as_str()), (vec![9u8; 2], "image/webp"));
    let r = choose_image(Transform::WebP, orig.clone(), "image/jpeg", Some(vec![9u8; 4]));
    assert_eq!((r.bytes, r.content_type.as_str()), (orig.clone(), "image/jpeg"));
    let r = choose_image(Transform::WebP, orig.clone(), "image/jpeg", None);
    assert_eq!((r.bytes, r.content_type.as_str()), (orig, "image/jpeg"));
}

#[test]
fn upstream_status_is_kept() {
    let none: Vec<(String, String)> = vec![];
    assert_eq!(upstream_response(404, &none, true).status, 404);
    assert_eq!(upstream_response(206, &none, false).status, 206);
    assert_eq!(upstream_response(500, &none, true).headers, cors());
    let failed = error_response(ProxyError::Upstream);
    assert_eq!(failed.status, 502);
    assert_eq!(failed.headers, cors());
}

#[test]
fn response_headers_streamed_and_buffered() {
    let up = vec![pair("content-type", "video/mp4"), pair("content-length", "10"), pair("set-cookie", "a"), pair("access-control-allow-origin", "x")];
    let r = upstream_response(404, &up, true);
    assert_eq!(r.status, 404);
    let mut expected = cors();
    expected.push(pair("content-type", "video/mp4"));
    let buffered = upstream_response(200, &up, false);
    assert_eq!(buffered.headers, expected);
    expected.push(pair("content-length", "10"));
    assert_eq!(r.headers, expected);
}

#[test]
fn content_types_by_extension() {
    assert_eq!(get_content_type("js"), Ok("text/javascript"));
    assert_eq!(get_content_type("htm"), Ok("text/html"));
    assert_eq!(get_content_type("map"), Ok("application/json"));
    assert_eq!(get_content_type("exe"), Err(ContentTypeError::NotFound));
    assert_eq!(get_content_type(""), Err(ContentTypeError::NotFound));
}

#[test]
fn assets_are_patched() {
    let files = vec![
        pair("assets/a.js", "fetch(\"https://pipedapi.kavin.rocks/x\");https://pipedapi.kavin.rocks"),
        pair("assets/b.css", "body{}"),
    ];
    let patched = patch_assets(&files, "http://localhost:8081");
    assert_eq!(patched.files.len(), 1);
    assert_eq!(
        get_patched_asset(&patched, "assets/a.js"),
        Some("fetch(\"http://localhost:8081/x\");http://localhost:8081")
    );
    assert_eq!(get_patched_asset(&patched, "assets/b.css"), None);
}

#[test]
fn config_defaults() {
    let b = Backend::default();
    assert_eq!(b.http_workers, 2);
    assert!(b.compromised_password_check);
    assert_eq!(b.subscriptions_expiry, Some(30));
    assert_eq!(b.feed_retention, 30);
    assert_eq!(b.db_connection_url, "jdbc:postgresql://localhost:5432/piped");
    assert_eq!(b.db_username, "piped");
    let a = Addresses::default();
    assert_eq!(a.proxy, "http://localhost:8082");
    assert_eq!(a.frontend, "http://localhost:8080");
}

#[test]
fn address_choice() {
    assert_eq!(pick_address(None, Some(4), Some(6)), Some(6));
    assert_eq!(pick_address(None, Some(4), None), Some(4));
    assert_eq!(pick_address(Some(true), Some(4), None), None);
    assert_eq!(pick_address(Some(false), Some(4), Some(6)), Some(6));
}

#[test]
fn file_content_type_fallbacks() {
    assert_eq!(file_content_type(Some("css"), true), "text/css");
    assert_eq!(file_content_type(Some("wasm"), true), "application/octet-stream");
    assert_eq!(file_content_type(Some("wasm"), false), "text/plain");
    assert_eq!(file_content_type(None, false), "text/plain");
}

#[test]
fn authority_of_addresses() {
    assert_eq!(authority_of("http://localhost:8082"), "localhost:8082");
    assert_eq!(authority_of("https://example.com/path"), "example.com");
    assert_eq!(authority_of("127.0.0.1:80"), "127.0.0.1:80");
    assert_eq!(authority_of(""), "");
}

#[test]
fn backend_port_from_address() {
    assert_eq!(backend_port("http://localhost:8081"), 8081);
    assert_eq!(backend_port("http://localhost"), 80);
    assert_eq!(backend_port("localhost:+9000"), 9000);
    assert_eq!(backend_port("localhost:65535"), 65535);
    assert_eq!(backend_port("localhost:65536"), 80);
    assert_eq!(backend_port("localhost:99999999999"), 80);
    assert_eq!(backend_port("localhost:"), 80);
    assert_eq!(backend_port("8080"), 8080);
    assert_eq!(backend_port("localhost:0080"), 80);
}
