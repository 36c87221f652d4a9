//! Settings of the frontend, the proxy and the bundled backend.

use vstd::prelude::*;
use crate::text::{chars_of, has_prefix, has_prefix_exec, string_of};

verus! {

broadcast use vstd::string::group_string_axioms;

/// Settings handed to the bundled backend.
pub struct Backend {
    /// Do not launch the backend at all.
    pub disable: bool,
    /// Disable the API server (the backend then only runs timers).
    pub disable_server: bool,
    /// The number of workers of the backend's server.
    pub http_workers: u32,
    /// Captcha service base URL.
    pub captcha_base_url: Option<String>,
    /// Captcha service API key.
    pub captcha_api_key: Option<String>,
    /// Check passwords against a compromised-password service.
    pub compromised_password_check: bool,
    /// Public address of the image proxy.
    pub image_proxy_part: Option<String>,
    /// PubSub callback address.
    pub pubsub_url: Option<String>,
    /// PubSub hub address.
    pub pubsub_hub_url: Option<String>,
    /// Outgoing proxy of the backend, e.g. socks5://127.0.0.1:1080.
    pub reqwest_proxy: Option<String>,
    /// Return-YouTube-Dislike proxy address.
    pub ryd_proxy_url: Option<String>,
    /// Comma-separated SponsorBlock servers.
    pub sponsorblock_servers: Option<String>,
    /// Geo-restriction checker address.
    pub geo_restriction_checker_url: Option<String>,
    /// Disable account registration.
    pub disable_registration: bool,
    /// Disable the backend's timers.
    pub disable_timers: Option<bool>,
    /// Disable Return-YouTube-Dislike.
    pub disable_ryd: Option<bool>,
    /// Disable LBRY streams.
    pub disable_lbry: Option<bool>,
    /// Days that unauthenticated subscriptions last.
    pub subscriptions_expiry: Option<u32>,
    /// Sentry DSN for error reporting.
    pub sentry_dsn: Option<String>,
    /// S3-compatible storage endpoint.
    pub s3_endpoint: Option<String>,
    /// S3 access key.
    pub s3_access_key: Option<String>,
    /// S3 secret key.
    pub s3_secret_key: Option<String>,
    /// S3 bucket.
    pub s3_bucket: Option<String>,
    /// Matrix client-server address.
    pub matrix_server: Option<String>,
    /// Matrix access token; anonymous mode without one.
    pub matrix_token: Option<String>,
    /// Feed retention in days.
    pub feed_retention: u32,
    /// Database connection URL.
    pub db_connection_url: String,
    /// Database user.
    pub db_username: String,
    /// Database password.
    pub db_password: String,
}

impl Default for Backend {
    fn default() -> (r: Backend)
        ensures
            r.disable == false,
            r.disable_server == false,
            r.http_workers == 2,
            r.captcha_base_url is None,
            r.captcha_api_key is None,
            r.compromised_password_check == true,
            r.image_proxy_part is None,
            r.pubsub_url is None,
            r.pubsub_hub_url is None,
            r.reqwest_proxy is None,
            r.ryd_proxy_url is None,
            r.sponsorblock_servers is None,
            r.geo_restriction_checker_url is None,
            r.disable_registration == false,
            r.disable_timers == Some(false),
            r.disable_ryd == Some(false),
            r.disable_lbry == Some(false),
            r.subscriptions_expiry == Some(30u32),
            r.sentry_dsn is None,
            r.s3_endpoint is None,
            r.s3_access_key is None,
            r.s3_secret_key is None,
            r.s3_bucket is None,
            r.matrix_server is None,
            r.matrix_token is None,
            r.feed_retention == 30,
            r.db_connection_url@ == "jdbc:postgresql://localhost:5432/piped"@,
            r.db_username@ == "piped"@,
            r.db_password@ == "piped"@,
    {
        Backend {
            disable: false,
            disable_server: false,
            http_workers: 2,
            captcha_base_url: None,
            captcha_api_key: None,
            compromised_password_check: true,
            image_proxy_part: None,
            pubsub_url: None,
            pubsub_hub_url: None,
            reqwest_proxy: None,
            ryd_proxy_url: None,
            sponsorblock_servers: None,
            geo_restriction_checker_url: None,
            disable_registration: false,
            disable_timers: Some(false),
            disable_ryd: Some(false),
            disable_lbry: Some(false),
            subscriptions_expiry: Some(30),
            sentry_dsn: None,
            s3_endpoint: None,
            s3_access_key: None,
            s3_secret_key: None,
            s3_bucket: None,
            matrix_server: None,
            matrix_token: None,
            feed_retention: 30,
            db_connection_url: String::from_str("jdbc:postgresql://localhost:5432/piped"),
            db_username: String::from_str("piped"),
            db_password: String::from_str("piped"),
        }
    }
}

/// Where the three HTTP surfaces listen, and how.
pub struct Addresses {
    /// Frontend address, with an http or https prefix and no trailing slash.
    pub frontend: String,
    /// Backend address, with an http or https prefix and no trailing slash.
    pub backend: String,
    /// Proxy address, with an http or https prefix and no trailing slash.
    pub proxy: String,
    /// Prefer an IPv6 address (by default IPv4 is used when no IPv6 one resolves).
    pub use_ipv6: Option<bool>,
    /// Terminate TLS on the listeners.
    pub use_ssl: Option<bool>,
    /// Certificate file, in PEM.
    pub ssl_cert: Option<String>,
    /// Private key file, in PEM.
    pub ssl_key: Option<String>,
    /// Address of the TLS front of the backend, used with `use_ssl`.
    pub backend_ssl_proxy: Option<String>,
}

impl Default for Addresses {
    fn default() -> (r: Addresses)
        ensures
            r.frontend@ == "http://localhost:8080"@,
            r.backend@ == "http://localhost:8081"@,
            r.proxy@ == "http://localhost:8082"@,
            r.use_ipv6 is None,
            r.use_ssl is None,
            r.ssl_cert is None,
            r.ssl_key is None,
            r.backend_ssl_proxy is None,
    {
        Addresses {
            frontend: String::from_str("http://localhost:8080"),
            backend: String::from_str("http://localhost:8081"),
            proxy: String::from_str("http://localhost:8082"),
            use_ipv6: None,
            use_ssl: None,
            ssl_cert: None,
            ssl_key: None,
            backend_ssl_proxy: None,
        }
    }
}

/// All settings.
pub struct Config {
    pub addresses: Addresses,
    pub backend: Backend,
}

impl Default for Config {
    fn default() -> (r: Config)
        ensures
            r.addresses.proxy@ == "http://localhost:8082"@,
            r.backend.http_workers == 2,
    {
        Config { addresses: Addresses::default(), backend: Backend::default() }
    }
}

/// The address to listen on: IPv6 when asked for or when one resolved,
/// else IPv4.
pub fn pick_address<T>(use_ipv6: Option<bool>, ipv4: Option<T>, ipv6: Option<T>) -> (r: Option<T>)
    ensures
        r == (if use_ipv6 == Some(true) || ipv6 is Some {
            ipv6
        } else {
            ipv4
        }),
{
    let prefer = match use_ipv6 {
        Some(b) => b,
        None => false,
    };
    if prefer {
        ipv6
    } else {
        match ipv6 {
            Some(a) => Some(a),
            None => ipv4,
        }
    }
}


/// `s` from index `from` up to the first `/` after it (or its end).
pub open spec fn up_to_slash(s: Seq<char>, from: int) -> Seq<char>
    decreases s.len() - from,
{
    if from < 0 || from >= s.len() || s[from] == '/' {
        Seq::empty()
    } else {
        seq![s[from]] + up_to_slash(s, from + 1)
    }
}

/// The `host[:port]` part of an address written as a URL or as `host[:port]`.
pub open spec fn authority(addr: Seq<char>) -> Seq<char> {
    if has_prefix(addr, "http://"@) {
        up_to_slash(addr, 7)
    } else if has_prefix(addr, "https://"@) {
        up_to_slash(addr, 8)
    } else {
        up_to_slash(addr, 0)
    }
}

/// The `host[:port]` part of `addr`, which is a URL such as
/// `http://localhost:8082/` or already `host[:port]`.
pub fn authority_of(addr: &str) -> (r: String)
    ensures
        r@ == authority(addr@),
{
    proof {
        reveal_strlit("http://");
        reveal_strlit("https://");
    }
    let s = chars_of(addr);
    let start: usize = if has_prefix_exec(&s, &chars_of("http://")) {
        7
    } else if has_prefix_exec(&s, &chars_of("https://")) {
        8
    } else {
        0
    };
    let mut out: Vec<char> = Vec::new();
    let mut i: usize = start;
    assert(out@ + up_to_slash(s@, i as int) =~= authority(addr@));
    while i < s.len() && s[i] != '/'
        invariant
            s@ == addr@,
            start <= i,
            out@ + up_to_slash(s@, i as int) == authority(addr@),
        decreases s.len() - i,
    {
        let ghost before = out@;
        out.push(s[i]);
        assert(before + up_to_slash(s@, i as int) =~= out@ + up_to_slash(s@, i + 1));
        i += 1;
    }
    assert(up_to_slash(s@, i as int) == Seq::<char>::empty());
    assert(out@ + Seq::<char>::empty() =~= out@);
    string_of(&out)
}


/// `c` is an ASCII decimal digit.
pub open spec fn is_digit(c: char) -> bool {
    '0' <= c && c <= '9'
}

/// The value of the decimal digits `s`, capped at 65536.
pub open spec fn capped_value(s: Seq<char>) -> int
    decreases s.len(),
{
    if s.len() == 0 {
        0
    } else {
        let v = 10 * capped_value(s.drop_last()) + (s.last() as int - '0' as int);
        if v > 65536 {
            65536
        } else {
            v
        }
    }
}

/// `s` read as a port number: an optional `+` and one or more decimal digits
/// whose value fits in 16 bits.
pub open spec fn parsed_port(s: Seq<char>) -> Option<u16> {
    let d = if s.len() > 0 && s[0] == '+' {
        s.drop_first()
    } else {
        s
    };
    if d.len() > 0 {
        digits_port(d)
    } else {
        None
    }
}

/// The decimal digits `d` as a 16-bit number, if they are all digits and
/// their value fits.
pub open spec fn digits_port(d: Seq<char>) -> Option<u16> {
    if (forall|i: int| 0 <= i < d.len() ==> is_digit(#[trigger] d[i])) && capped_value(d) <= 65535 {
        Some(capped_value(d) as u16)
    } else {
        None
    }
}

/// The part of `s` after its last `:` (all of `s` when it has none).
pub open spec fn after_last_colon(s: Seq<char>) -> Seq<char>
    decreases s.len(),
{
    if s.len() == 0 {
        s
    } else if s.last() == ':' {
        Seq::empty()
    } else {
        after_last_colon(s.drop_last()).push(s.last())
    }
}

/// The port the bundled backend listens on: the number after the last `:`
/// of its address, or 80 when that is not a port number.
pub open spec fn backend_port_of(addr: Seq<char>) -> u16 {
    match parsed_port(after_last_colon(addr)) {
        Some(p) => p,
        None => 80,
    }
}

proof fn lemma_capped_bounds(s: Seq<char>)
    requires
        forall|i: int| 0 <= i < s.len() ==> is_digit(#[trigger] s[i]),
    ensures
        0 <= capped_value(s) <= 65536,
    decreases s.len(),
{
    if s.len() > 0 {
        lemma_capped_bounds(s.drop_last());
    }
}

fn colon_start(s: &Vec<char>) -> (start: usize)
    ensures
        start <= s.len(),
        after_last_colon(s@) == s@.subrange(start as int, s.len() as int),
{
    let mut start: usize = s.len();
    assert(s@.take(s.len() as int) =~= s@);
    assert(after_last_colon(s@) + s@.subrange(s.len() as int, s.len() as int) =~= after_last_colon(s@));
    while start > 0 && s[start - 1] != ':'
        invariant
            start <= s.len(),
            after_last_colon(s@) == after_last_colon(s@.take(start as int)) + s@.subrange(
                start as int,
                s.len() as int,
            ),
        decreases start,
    {
        let ghost t = s@.take(start as int);
        assert(t.drop_last() =~= s@.take(start - 1));
        assert(s@.subrange(start - 1, s.len() as int) =~= seq![t.last()] + s@.subrange(
            start as int,
            s.len() as int,
        ));
        assert(after_last_colon(t) == after_last_colon(t.drop_last()).push(t.last()));
        assert(after_last_colon(s@.take(start - 1)) + s@.subrange(start - 1, s.len() as int)
            =~= after_last_colon(t.drop_last()).push(t.last()) + s@.subrange(
            start as int,
            s.len() as int,
        ));
        start -= 1;
    }
    proof {
        let t = s@.take(start as int);
        if start == 0 {
            assert(t.len() == 0);
        } else {
            assert(t.last() == ':');
        }
        assert(after_last_colon(t) =~= Seq::<char>::empty());
        assert(after_last_colon(s@) =~= s@.subrange(start as int, s.len() as int));
    }
    start
}

fn digits_value(s: &Vec<char>, first: usize) -> (r: Option<u16>)
    requires
        first < s.len(),
    ensures
        r == digits_port(s@.subrange(first as int, s.len() as int)),
{
    let ghost d = s@.subrange(first as int, s.len() as int);
    let mut i: usize = first;
    let mut value: u32 = 0;
    assert(s@.subrange(first as int, first as int) =~= Seq::<char>::empty());
    while i < s.len()
        invariant
            first <= i <= s.len(),
            d == s@.subrange(first as int, s.len() as int),
            forall|k: int| first <= k < i ==> is_digit(#[trigger] s@[k]),
            value as int == capped_value(s@.subrange(first as int, i as int)),
            value <= 65536,
        decreases s.len() - i,
    {
        let c = s[i];
        if !('0' <= c && c <= '9') {
            assert(!is_digit(d[i - first]));
            return None;
        }
        let ghost p = s@.subrange(first as int, i + 1);
        assert(p.drop_last() =~= s@.subrange(first as int, i as int));
        let digit = (c as u32) - ('0' as u32);
        let next = value * 10 + digit;
        value = if next > 65536 {
            65536
        } else {
            next
        };
        i += 1;
    }
    assert(forall|k: int| 0 <= k < d.len() ==> is_digit(#[trigger] d[k])) by {
        assert forall|k: int| 0 <= k < d.len() implies is_digit(#[trigger] d[k]) by {
            assert(d[k] == s@[first + k]);
        }
    }
    if value <= 65535 {
        Some(value as u16)
    } else {
        None
    }
}

/// The port of the bundled backend, read from its address `addr`.
pub fn backend_port(addr: &str) -> (r: u16)
    ensures
        r == backend_port_of(addr@),
{
    let s = chars_of(addr);
    let start = colon_start(&s);
    let ghost seg = s@.subrange(start as int, s.len() as int);
    let mut i: usize = start;
    if i < s.len() && s[i] == '+' {
        i += 1;
    }
    let ghost d = s@.subrange(i as int, s.len() as int);
    assert(d =~= (if seg.len() > 0 && seg[0] == '+' {
        seg.drop_first()
    } else {
        seg
    }));
    if i == s.len() {
        assert(d.len() == 0);
        return 80;
    }
    match digits_value(&s, i) {
        Some(p) => p,
        None => 80,
    }
}

} // verus!
