//! The allow-list check on the caller-supplied upstream host.

use vstd::prelude::*;
use crate::error::ProxyError;
use crate::text::{chars_of, string_of};

verus! {

broadcast use vstd::string::group_string_axioms;

/// The registrable domains that the proxy forwards to.
pub const ALLOWED_DOMAINS: [&'static str; 8] = [
    "youtube.com",
    "googlevideo.com",
    "ytimg.com",
    "ggpht.com",
    "googleusercontent.com",
    "lbryplayer.xyz",
    "odycdn.com",
    "ajay.app",
];

/// A character that may appear in a host name: a lowercase ASCII letter, an
/// ASCII digit, a dot or a hyphen.
pub open spec fn is_host_char(c: char) -> bool {
    ('a' <= c && c <= 'z') || ('0' <= c && c <= '9') || c == '.' || c == '-'
}

/// The index of the last dot in `s` before index `end`, or -1 if there is none.
pub open spec fn last_dot_before(s: Seq<char>, end: int) -> int
    decreases end,
{
    if end <= 0 {
        -1
    } else if s[end - 1] == '.' {
        end - 1
    } else {
        last_dot_before(s, end - 1)
    }
}

/// The last two dot-separated labels of `host`: `None` when `host` holds a
/// character outside the host alphabet or has no dot.
pub open spec fn registrable_domain(host: Seq<char>) -> Option<Seq<char>> {
    let d = last_dot_before(host, host.len() as int);
    if (forall|i: int| 0 <= i < host.len() ==> is_host_char(#[trigger] host[i])) && d >= 0 {
        Some(host.subrange(last_dot_before(host, d) + 1, host.len() as int))
    } else {
        None
    }
}

/// `domain` is on the allow-list (exact, case-sensitive).
pub open spec fn is_allowed_domain(domain: Seq<char>) -> bool {
    exists|i: int| 0 <= i < 8 && domain == (#[trigger] ALLOWED_DOMAINS[i])@
}

/// The characters of an optional string.
pub open spec fn str_opt(s: Option<&str>) -> Option<Seq<char>> {
    match s {
        Some(t) => Some(t@),
        None => None,
    }
}

/// The outcome of validating the `host` parameter.
pub open spec fn validation(host: Option<Seq<char>>) -> Result<Seq<char>, ProxyError> {
    match host {
        None => Err(ProxyError::MissingHost),
        Some(h) => match registrable_domain(h) {
            None => Err(ProxyError::InvalidHost),
            Some(d) => if is_allowed_domain(d) {
                Ok(d)
            } else {
                Err(ProxyError::DomainNotAllowed)
            },
        },
    }
}

fn last_dot_exec(s: &Vec<char>, end: usize) -> (r: Option<usize>)
    requires
        end <= s.len(),
    ensures
        match r {
            Some(i) => i as int == last_dot_before(s@, end as int),
            None => last_dot_before(s@, end as int) == -1,
        },
        last_dot_before(s@, end as int) < end,
{
    let mut k: usize = end;
    while k > 0
        invariant
            k <= end <= s.len(),
            last_dot_before(s@, end as int) == last_dot_before(s@, k as int),
        decreases k,
    {
        if s[k - 1] == '.' {
            return Some(k - 1);
        }
        k -= 1;
    }
    None
}

proof fn lemma_last_dot_below(s: Seq<char>, end: int)
    ensures
        -1 <= last_dot_before(s, end) < end || end <= 0,
        last_dot_before(s, end) >= 0 ==> s[last_dot_before(s, end)] == '.',
    decreases end,
{
    if end > 0 && s[end - 1] != '.' {
        lemma_last_dot_below(s, end - 1);
    }
}

/// The registrable domain of `host`: its last two dot-separated labels.
pub fn registrable_domain_of(host: &str) -> (r: Option<String>)
    ensures
        match r {
            Some(d) => registrable_domain(host@) == Some(d@),
            None => registrable_domain(host@) is None,
        },
{
    let h = chars_of(host);
    let mut i: usize = 0;
    while i < h.len()
        invariant
            i <= h.len(),
            h@ == host@,
            forall|j: int| 0 <= j < i ==> is_host_char(#[trigger] h@[j]),
        decreases h.len() - i,
    {
        let c = h[i];
        if !(('a' <= c && c <= 'z') || ('0' <= c && c <= '9') || c == '.' || c == '-') {
            assert(!is_host_char(h@[i as int]));
            return None;
        }
        i += 1;
    }
    proof {
        lemma_last_dot_below(h@, h.len() as int);
    }
    match last_dot_exec(&h, h.len()) {
        None => None,
        Some(d) => {
            proof {
                lemma_last_dot_below(h@, d as int);
            }
            let start = match last_dot_exec(&h, d) {
                None => 0,
                Some(e) => e + 1,
            };
            let mut out: Vec<char> = Vec::new();
            let mut k: usize = start;
            while k < h.len()
                invariant
                    start <= k <= h.len(),
                    out@ == h@.subrange(start as int, k as int),
                decreases h.len() - k,
            {
                out.push(h[k]);
                assert(h@.subrange(start as int, k + 1) =~= h@.subrange(start as int, k as int).push(h@[k as int]));
                k += 1;
            }
            Some(string_of(&out))
        },
    }
}

/// Whether `domain` is on the allow-list.
pub fn is_domain_allowed(domain: &str) -> (r: bool)
    ensures
        r == is_allowed_domain(domain@),
{
    let mut i: usize = 0;
    while i < 8
        invariant
            i <= 8,
            forall|j: int| 0 <= j < i ==> domain@ != (#[trigger] ALLOWED_DOMAINS[j])@,
        decreases 8 - i,
    {
        if crate::text::same_str(domain, ALLOWED_DOMAINS[i]) {
            return true;
        }
        i += 1;
    }
    false
}

/// Checks the `host` parameter of a request: it must be present, have the
/// shape of a host name, and its registrable domain must be allowed. Returns
/// that registrable domain.
pub fn validate_host(host: Option<&str>) -> (r: Result<String, ProxyError>)
    ensures
        match r {
            Ok(d) => validation(str_opt(host)) == Ok::<Seq<char>, ProxyError>(d@),
            Err(e) => validation(str_opt(host)) == Err::<Seq<char>, ProxyError>(e),
        },
{
    match host {
        None => Err(ProxyError::MissingHost),
        Some(h) => match registrable_domain_of(h) {
            None => Err(ProxyError::InvalidHost),
            Some(d) => if is_domain_allowed(d.as_str()) {
                Ok(d)
            } else {
                Err(ProxyError::DomainNotAllowed)
            },
        },
    }
}


proof fn lemma_last_dot_skips(s: Seq<char>, j: int, end: int)
    requires
        0 <= j <= end <= s.len(),
        forall|k: int| j <= k < end ==> s[k] != '.',
    ensures
        last_dot_before(s, end) == last_dot_before(s, j),
    decreases end - j,
{
    if end > j {
        lemma_last_dot_skips(s, j, end - 1);
    }
}

/// A host whose registrable domain is missing or not on the allow-list
/// fails validation, so no request for it is sent upstream.
pub proof fn lemma_disallowed_host_rejected(host: Seq<char>)
    requires
        !(registrable_domain(host) matches Some(d) && is_allowed_domain(d)),
    ensures
        validation(Some(host)) is Err,
{
}

/// Any host made of host characters whose last two labels are `d`, where `d`
/// holds exactly one dot, has `d` as its registrable domain.
pub proof fn lemma_registrable_suffix(sub: Seq<char>, d: Seq<char>, p: int)
    requires
        0 <= p < d.len(),
        d[p] == '.',
        forall|k: int| 0 <= k < d.len() && k != p ==> d[k] != '.',
        forall|k: int| 0 <= k < d.len() ==> is_host_char(#[trigger] d[k]),
        forall|k: int| 0 <= k < sub.len() ==> is_host_char(#[trigger] sub[k]),
    ensures
        registrable_domain(sub + "."@ + d) == Some(d),
{
    reveal_strlit(".");
    let s = sub + "."@ + d;
    let n = sub.len() as int;
    assert(forall|k: int| 0 <= k < s.len() ==> is_host_char(#[trigger] s[k])) by {
        assert forall|k: int| 0 <= k < s.len() implies is_host_char(#[trigger] s[k]) by {
            if k < n {
                assert(s[k] == sub[k]);
            } else if k > n {
                assert(s[k] == d[k - n - 1]);
            }
        }
    }
    assert forall|k: int| n + 2 + p <= k < s.len() implies s[k] != '.' by {
        assert(s[k] == d[k - n - 1]);
    }
    lemma_last_dot_skips(s, n + 2 + p, s.len() as int);
    assert(s[n + 1 + p] == d[p]);
    assert(last_dot_before(s, n + 2 + p) == n + 1 + p);
    assert forall|k: int| n + 1 <= k < n + 1 + p implies s[k] != '.' by {
        assert(s[k] == d[k - n - 1]);
    }
    lemma_last_dot_skips(s, n + 1, n + 1 + p);
    assert(s[n] == '.');
    assert(last_dot_before(s, n + 1) == n);
    assert(s.subrange(n + 1, s.len() as int) =~= d);
}

/// Every host of the form `sub.d`, with `d` on the allow-list and `sub` any
/// run of host characters (any number of labels), passes validation.
pub proof fn lemma_allowed_subdomains_accepted(sub: Seq<char>, i: int)
    requires
        0 <= i < 8,
        forall|k: int| 0 <= k < sub.len() ==> is_host_char(#[trigger] sub[k]),
    ensures
        validation(Some(sub + "."@ + ALLOWED_DOMAINS[i]@)) == Ok::<Seq<char>, ProxyError>(
            ALLOWED_DOMAINS[i]@,
        ),
{
    let d = ALLOWED_DOMAINS[i]@;
    let p: int = if i == 0 {
        reveal_strlit("youtube.com");
        7
    } else if i == 1 {
        reveal_strlit("googlevideo.com");
        11
    } else if i == 2 {
        reveal_strlit("ytimg.com");
        5
    } else if i == 3 {
        reveal_strlit("ggpht.com");
        5
    } else if i == 4 {
        reveal_strlit("googleusercontent.com");
        17
    } else if i == 5 {
        reveal_strlit("lbryplayer.xyz");
        10
    } else if i == 6 {
        reveal_strlit("odycdn.com");
        6
    } else {
        reveal_strlit("ajay.app");
        4
    };
    assert(0 <= p < d.len() && d[p] == '.');
    assert(forall|k: int| 0 <= k < d.len() && k != p ==> d[k] != '.');
    assert(forall|k: int| 0 <= k < d.len() ==> is_host_char(#[trigger] d[k]));
    lemma_registrable_suffix(sub, d, p);
    assert(is_allowed_domain(d));
}

} // verus!
