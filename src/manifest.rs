//! Localization of the URLs inside HLS playlists and DASH manifests.

use vstd::prelude::*;
use crate::localize::{localize_url, localized, with_own_host};
use crate::text::{
    chars_of, extend_chars, has_prefix, has_prefix_exec, occurs_at, occurs_at_exec, replace_all,
    replace_all_exec, string_of,
};

verus! {

broadcast use vstd::string::group_string_axioms;

/// The index of the first `c` in `s` at or after `i`, or `s.len()`.
pub open spec fn next_index_of(s: Seq<char>, c: char, i: int) -> int
    decreases s.len() - i,
{
    if i >= s.len() {
        s.len() as int
    } else if s[i] == c {
        i
    } else {
        next_index_of(s, c, i + 1)
    }
}

proof fn lemma_next_index_bounds(s: Seq<char>, c: char, i: int)
    requires
        0 <= i,
    ensures
        i <= s.len() ==> i <= next_index_of(s, c, i) <= s.len(),
        forall|k: int| i <= k < next_index_of(s, c, i) ==> s[k] != c,
        next_index_of(s, c, i) < s.len() ==> s[next_index_of(s, c, i)] == c,
    decreases s.len() - i,
{
    if i < s.len() && s[i] != c {
        lemma_next_index_bounds(s, c, i + 1);
    }
}

fn next_index_exec(s: &Vec<char>, c: char, i: usize) -> (r: usize)
    requires
        i <= s.len(),
    ensures
        r == next_index_of(s@, c, i as int),
        i <= r <= s.len(),
{
    let mut k: usize = i;
    while k < s.len()
        invariant
            i <= k <= s.len(),
            next_index_of(s@, c, i as int) == next_index_of(s@, c, k as int),
        decreases s.len() - k,
    {
        if s[k] == c {
            return k;
        }
        k += 1;
    }
    k
}

/// The value of a `URI="value"` attribute that starts at index `i` of `line`:
/// one or more characters other than `"`, closed by `"`.
pub open spec fn uri_at(line: Seq<char>, i: int) -> Option<Seq<char>> {
    let e = next_index_of(line, '"', i + 5);
    if occurs_at(line, i, "URI=\""@) && e < line.len() && e > i + 5 {
        Some(line.subrange(i + 5, e))
    } else {
        None
    }
}

/// The leftmost `URI="value"` attribute value of `line` at or after `i`.
pub open spec fn first_uri_from(line: Seq<char>, i: int) -> Option<Seq<char>>
    decreases line.len() - i,
{
    if i < 0 || i >= line.len() {
        None
    } else {
        match uri_at(line, i) {
            Some(u) => Some(u),
            None => first_uri_from(line, i + 1),
        }
    }
}

/// One playlist line, localized: an `https` URI attribute value is replaced
/// wherever it occurs in the line; any other line goes through localization
/// as a whole.
pub open spec fn hls_line(line: Seq<char>, host: Seq<char>) -> Seq<char> {
    match first_uri_from(line, 0) {
        Some(u) => if has_prefix(u, "https://"@) {
            replace_all(line, u, localized(u, host))
        } else {
            localized(line, host)
        },
        None => localized(line, host),
    }
}

/// `l` without one trailing carriage return.
pub open spec fn strip_cr(l: Seq<char>) -> Seq<char> {
    if l.len() > 0 && l.last() == '\r' {
        l.drop_last()
    } else {
        l
    }
}

/// The localized lines of `text` from index `i`: lines end at `\n`, lose one
/// trailing `\r`, and a final `\n` opens no further line.
pub open spec fn hls_lines_from(text: Seq<char>, i: int, host: Seq<char>) -> Seq<Seq<char>>
    decreases text.len() - i,
{
    if i < 0 || i >= text.len() {
        Seq::empty()
    } else {
        let e = next_index_of(text, '\n', i);
        if e < i || e >= text.len() {
            seq![hls_line(strip_cr(text.subrange(i, text.len() as int)), host)]
        } else {
            seq![hls_line(strip_cr(text.subrange(i, e)), host)] + hls_lines_from(text, e + 1, host)
        }
    }
}

/// `lines` joined by `\n`.
pub open spec fn join_lines(lines: Seq<Seq<char>>) -> Seq<char>
    decreases lines.len(),
{
    if lines.len() == 0 {
        Seq::empty()
    } else if lines.len() == 1 {
        lines[0]
    } else {
        join_lines(lines.drop_last()) + "\n"@ + lines.last()
    }
}

/// An HLS playlist from `host`, localized line by line.
pub open spec fn rewritten_hls(text: Seq<char>, host: Seq<char>) -> Seq<char> {
    join_lines(hls_lines_from(text, 0, host))
}

fn first_uri(line: &Vec<char>) -> (r: Option<Vec<char>>)
    ensures
        match r {
            Some(u) => first_uri_from(line@, 0) == Some(u@),
            None => first_uri_from(line@, 0) is None,
        },
{
    let prefix = chars_of("URI=\"");
    proof {
        reveal_strlit("URI=\"");
    }
    let mut i: usize = 0;
    while i < line.len()
        invariant
            i <= line.len(),
            prefix@ == "URI=\""@,
            prefix@.len() == 5,
            first_uri_from(line@, 0) == first_uri_from(line@, i as int),
        decreases line.len() - i,
    {
        if occurs_at_exec(line, i, &prefix) {
            let e = next_index_exec(line, '"', i + 5);
            if e < line.len() && e > i + 5 {
                let mut u: Vec<char> = Vec::new();
                let mut k: usize = i + 5;
                while k < e
                    invariant
                        i + 5 <= k <= e < line.len(),
                        u@ == line@.subrange(i + 5, k as int),
                    decreases e - k,
                {
                    u.push(line[k]);
                    assert(line@.subrange(i + 5, k + 1) =~= line@.subrange(i + 5, k as int).push(
                        line@[k as int],
                    ));
                    k += 1;
                }
                return Some(u);
            }
        }
        i += 1;
    }
    None
}

fn localize_line(line: &Vec<char>, host: &str) -> (r: Vec<char>)
    ensures
        r@ == hls_line(line@, host@),
{
    match first_uri(line) {
        Some(u) => {
            if has_prefix_exec(&u, &chars_of("https://")) {
                let us = string_of(&u);
                let local = chars_of(localize_url(us.as_str(), host).as_str());
                replace_all_exec(line, &u, &local)
            } else {
                let ls = string_of(line);
                chars_of(localize_url(ls.as_str(), host).as_str())
            }
        },
        None => {
            let ls = string_of(line);
            chars_of(localize_url(ls.as_str(), host).as_str())
        },
    }
}

/// Localizes every line of the HLS playlist `text`, fetched from `host`.
pub fn rewrite_hls(text: &str, host: &str) -> (r: String)
    ensures
        r@ == rewritten_hls(text@, host@),
{
    let s = chars_of(text);
    let mut out: Vec<char> = Vec::new();
    let ghost mut done: Seq<Seq<char>> = Seq::empty();
    let mut i: usize = 0;
    let mut first = true;
    while i < s.len()
        invariant
            first == (done.len() == 0),
            s@ == text@,
            i <= s.len(),
            done + hls_lines_from(s@, i as int, host@) == hls_lines_from(s@, 0, host@),
            out@ == join_lines(done),
        decreases s.len() - i,
    {
        let e = next_index_exec(&s, '\n', i);
        let mut line: Vec<char> = Vec::new();
        let mut k: usize = i;
        while k < e
            invariant
                i <= k <= e <= s.len(),
                line@ == s@.subrange(i as int, k as int),
            decreases e - k,
        {
            line.push(s[k]);
            assert(s@.subrange(i as int, k + 1) =~= s@.subrange(i as int, k as int).push(s@[k as int]));
            k += 1;
        }
        if line.len() > 0 && line[line.len() - 1] == '\r' {
            line.pop();
        }
        let ghost raw = s@.subrange(i as int, e as int);
        assert(line@ == strip_cr(raw)) by {
            if raw.len() > 0 && raw.last() == '\r' {
                assert(line@ =~= raw.drop_last());
            }
        }
        let local = localize_line(&line, host);
        let ghost before = done;
        if !first {
            extend_chars(&mut out, &chars_of("\n"));
        }
        first = false;
        extend_chars(&mut out, &local);
        proof {
            done = done.push(local@);
            assert(done.drop_last() == before);
            if e < s.len() {
                assert(hls_lines_from(s@, i as int, host@) == seq![local@] + hls_lines_from(
                    s@,
                    e + 1,
                    host@,
                ));
                assert(before + hls_lines_from(s@, i as int, host@) =~= done + hls_lines_from(
                    s@,
                    e + 1,
                    host@,
                ));
            } else {
                assert(hls_lines_from(s@, i as int, host@) == seq![local@]);
                assert(before + hls_lines_from(s@, i as int, host@) =~= done);
            }
            if before.len() == 0 {
                assert(out@ =~= local@);
            }
        }
        if e < s.len() {
            i = e + 1;
        } else {
            return string_of(&out);
        }
    }
    assert(done + Seq::<Seq<char>>::empty() =~= done);
    string_of(&out)
}


/// The URL of a `BaseURL>https://...</BaseURL` element that starts at index
/// `i` of `text`: `https://` and one or more characters other than `<`,
/// closed by `</BaseURL`.
pub open spec fn base_url_at(text: Seq<char>, i: int) -> Option<Seq<char>> {
    let e = next_index_of(text, '<', i + 16);
    if occurs_at(text, i, "BaseURL>"@) && occurs_at(text, i + 8, "https://"@) && e > i + 16
        && e + 9 <= text.len() && occurs_at(text, e, "</BaseURL"@) {
        Some(text.subrange(i + 8, e))
    } else {
        None
    }
}

/// `text` from index `i` with the URL of each `BaseURL` element, found left
/// to right without overlap, localized for `host`.
pub open spec fn dash_from(text: Seq<char>, i: int, host: Seq<char>) -> Seq<char>
    decreases text.len() - i,
{
    if i < 0 || i >= text.len() {
        Seq::empty()
    } else {
        match base_url_at(text, i) {
            Some(u) => "BaseURL>"@ + localized(u, host) + "</BaseURL"@ + dash_from(
                text,
                i + 17 + u.len(),
                host,
            ),
            None => seq![text[i]] + dash_from(text, i + 1, host),
        }
    }
}

/// A DASH manifest from `host` with every `BaseURL` localized.
pub open spec fn rewritten_dash(text: Seq<char>, host: Seq<char>) -> Seq<char> {
    dash_from(text, 0, host)
}

/// Localizes the URL of every `BaseURL` element of the DASH manifest `text`,
/// fetched from `host`.
pub fn rewrite_dash(text: &str, host: &str) -> (r: String)
    ensures
        r@ == rewritten_dash(text@, host@),
{
    let s = chars_of(text);
    let open_tag = chars_of("BaseURL>");
    let scheme = chars_of("https://");
    let close_tag = chars_of("</BaseURL");
    proof {
        reveal_strlit("BaseURL>");
        reveal_strlit("https://");
        reveal_strlit("</BaseURL");
    }
    let mut out: Vec<char> = Vec::new();
    let mut i: usize = 0;
    assert(out@ + dash_from(s@, 0, host@) =~= dash_from(s@, 0, host@));
    while i < s.len()
        invariant
            s@ == text@,
            i <= s.len(),
            open_tag@ == "BaseURL>"@,
            scheme@ == "https://"@,
            close_tag@ == "</BaseURL"@,
            open_tag@.len() == 8,
            scheme@.len() == 8,
            close_tag@.len() == 9,
            out@ + dash_from(s@, i as int, host@) == dash_from(s@, 0, host@),
        decreases s.len() - i,
    {
        let mut found: Option<usize> = None;
        if occurs_at_exec(&s, i, &open_tag) && i + 8 <= s.len() && occurs_at_exec(
            &s,
            i + 8,
            &scheme,
        ) && i + 16 <= s.len() {
            let e = next_index_exec(&s, '<', i + 16);
            if e > i + 16 && occurs_at_exec(&s, e, &close_tag) {
                found = Some(e);
            }
        }
        proof {
            if found is None {
                if i + 16 > s.len() {
                    lemma_next_index_bounds(s@, '<', i + 16);
                }
                assert(base_url_at(s@, i as int) is None);
            }
        }
        match found {
            Some(e) => {
                let mut u: Vec<char> = Vec::new();
                let mut k: usize = i + 8;
                while k < e
                    invariant
                        i + 8 <= k <= e <= s.len(),
                        u@ == s@.subrange(i + 8, k as int),
                    decreases e - k,
                {
                    u.push(s[k]);
                    assert(s@.subrange(i + 8, k + 1) =~= s@.subrange(i + 8, k as int).push(
                        s@[k as int],
                    ));
                    k += 1;
                }
                let us = string_of(&u);
                let local = chars_of(localize_url(us.as_str(), host).as_str());
                let ghost before = out@;
                extend_chars(&mut out, &open_tag);
                extend_chars(&mut out, &local);
                extend_chars(&mut out, &close_tag);
                assert(base_url_at(s@, i as int) == Some(u@));
                assert(out@ =~= before + ("BaseURL>"@ + localized(u@, host@) + "</BaseURL"@));
                i = e + 9;
            },
            None => {
                let ghost before = out@;
                out.push(s[i]);
                assert(out@ =~= before + seq![s@[i as int]]);
                i += 1;
            },
        }
    }
    assert(out@ + Seq::<char>::empty() =~= out@);
    string_of(&out)
}

/// In a playlist line whose first `URI="..."` value `u` is an `https` URL,
/// every occurrence of `u` becomes its path and query with `host=<u's host>`
/// added; a line whose URI cannot be parsed is kept.
pub proof fn lemma_hls_uri_localized(line: Seq<char>, host: Seq<char>, u: Seq<char>)
    requires
        first_uri_from(line, 0) == Some(u),
        has_prefix(u, "https://"@),
    ensures
        hls_line(line, host) == match with_own_host(u) {
            Some((p, q)) => replace_all(line, u, p + "?"@ + q),
            None => replace_all(line, u, u),
        },
{
}

/// A `BaseURL` element holding an `https` URL `u` is localized in place:
/// its URL becomes its path and query with `host=<u's host>` added.
pub proof fn lemma_dash_base_url_localized(u: Seq<char>, host: Seq<char>)
    requires
        has_prefix(u, "https://"@),
        u.len() > 8,
        !u.contains('<'),
    ensures
        rewritten_dash("<BaseURL>"@ + u + "</BaseURL>"@, host) == "<BaseURL>"@ + localized(u, host)
            + "</BaseURL>"@,
{
    reveal_strlit("<BaseURL>");
    reveal_strlit("</BaseURL>");
    reveal_strlit("BaseURL>");
    reveal_strlit("</BaseURL");
    reveal_strlit("https://");
    let t = "<BaseURL>"@ + u + "</BaseURL>"@;
    let n = u.len() as int;
    assert(t[0] == '<');
    assert(base_url_at(t, 0) is None) by {
        assert(t.subrange(0, 8)[0] != "BaseURL>"@[0]);
    }
    let e = 9 + n;
    assert forall|k: int| 17 <= k < e implies t[k] != '<' by {
        assert(t[k] == u[k - 9]);
    }
    assert(t[e] == '<');
    lemma_next_index_reaches(t, '<', 17, e);
    assert(t.subrange(1, 9) =~= "BaseURL>"@);
    assert(t.subrange(9, 17) =~= u.subrange(0, 8));
    assert(t.subrange(e, e + 9) =~= "</BaseURL"@);
    assert(t.subrange(9, e) =~= u);
    assert(base_url_at(t, 1) == Some(u));
    assert(t[e + 9] == '>');
    assert(base_url_at(t, e + 9) is None);
    assert(dash_from(t, e + 10, host) == Seq::<char>::empty());
    assert(dash_from(t, e + 9, host) =~= seq!['>']);
    assert(dash_from(t, 1, host) =~= "BaseURL>"@ + localized(u, host) + "</BaseURL"@ + seq!['>']);
    assert(dash_from(t, 0, host) =~= "<BaseURL>"@ + localized(u, host) + "</BaseURL>"@);
}

proof fn lemma_next_index_reaches(s: Seq<char>, c: char, i: int, e: int)
    requires
        0 <= i <= e < s.len(),
        s[e] == c,
        forall|k: int| i <= k < e ==> s[k] != c,
    ensures
        next_index_of(s, c, i) == e,
    decreases e - i,
{
    if i < e {
        lemma_next_index_reaches(s, c, i + 1, e);
    }
}

} // verus!
