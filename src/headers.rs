//! Which HTTP headers cross the proxy, in either direction.

use vstd::prelude::*;
use crate::text::{chars_of, has_prefix, has_prefix_exec, pairs_view, same_str, string_of, Pair};

verus! {

broadcast use vstd::string::group_string_axioms;

/// The side of the proxy a header travels towards.
#[derive(Clone, Copy, Debug, PartialEq, Eq, Structural)]
pub enum Direction {
    /// From the client, on its way to the upstream host.
    Inbound,
    /// From the upstream host, on its way back to the client.
    Outbound,
}


/// The names that never cross the proxy.
pub open spec fn is_stripped_name(name: Seq<char>) -> bool {
    name == "host"@ || name == "content-length"@ || name == "set-cookie"@ || name == "alt-svc"@
        || name == "accept-ch"@ || name == "report-to"@ || name == "strict-transport-security"@
        || name == "user-agent"@
}

/// `c` with an ASCII capital letter turned into its small letter.
pub open spec fn lower_char(c: char) -> char {
    if 'A' <= c && c <= 'Z' {
        ((c as u8) + 32u8) as char
    } else {
        c
    }
}

/// `s` with its ASCII capital letters turned into small letters.
pub open spec fn ascii_lower(s: Seq<char>) -> Seq<char> {
    s.map_values(|c: char| lower_char(c))
}

/// A header with this lowercase name may be forwarded.
pub open spec fn name_allowed(name: Seq<char>) -> bool {
    !has_prefix(name, "access-control"@) && !is_stripped_name(name)
}

/// A header with this name, in any ASCII case, may be forwarded.
pub open spec fn header_allowed(name: Seq<char>) -> bool {
    name_allowed(ascii_lower(name))
}

fn lower_char_exec(c: char) -> (r: char)
    ensures
        r == lower_char(c),
{
    if 'A' <= c && c <= 'Z' {
        ((c as u8) + 32u8) as char
    } else {
        c
    }
}

/// `s` with its ASCII capital letters turned into small letters.
pub fn to_ascii_lower(s: &str) -> (r: String)
    ensures
        r@ == ascii_lower(s@),
{
    let v = chars_of(s);
    let mut out: Vec<char> = Vec::new();
    let mut i: usize = 0;
    while i < v.len()
        invariant
            i <= v.len(),
            out@ == ascii_lower(v@.take(i as int)),
        decreases v.len() - i,
    {
        out.push(lower_char_exec(v[i]));
        assert(ascii_lower(v@.take(i + 1)) =~= ascii_lower(v@.take(i as int)).push(
            lower_char(v@[i as int]),
        ));
        i += 1;
    }
    assert(v@.take(v.len() as int) =~= v@);
    string_of(&out)
}

/// The headers of `h` that may be forwarded, in their order.
pub open spec fn forwardable(h: Seq<(Seq<char>, Seq<char>)>) -> Seq<(Seq<char>, Seq<char>)>
    decreases h.len(),
{
    if h.len() == 0 {
        h
    } else if header_allowed(h.last().0) {
        forwardable(h.drop_last()).push(h.last())
    } else {
        forwardable(h.drop_last())
    }
}

/// Whether a header named `header`, in any ASCII case, may be forwarded.
pub fn is_header_allowed(header: &str) -> (r: bool)
    ensures
        r == header_allowed(header@),
{
    let lowered = to_ascii_lower(header);
    let n = lowered.as_str();
    if has_prefix_exec(&chars_of(n), &chars_of("access-control")) {
        return false;
    }
    !(same_str(n, "host") || same_str(n, "content-length") || same_str(n, "set-cookie")
        || same_str(n, "alt-svc") || same_str(n, "accept-ch") || same_str(n, "report-to")
        || same_str(n, "strict-transport-security") || same_str(n, "user-agent"))
}

/// Whether a header named `name` may travel in `direction`. The same names are
/// stripped both ways.
pub fn is_forwardable(name: &str, direction: Direction) -> (r: bool)
    ensures
        r == header_allowed(name@),
{
    match direction {
        Direction::Inbound => is_header_allowed(name),
        Direction::Outbound => is_header_allowed(name),
    }
}

/// The headers of `headers` that may be forwarded, in their order.
pub fn filter_headers(headers: &Vec<Pair>) -> (r: Vec<Pair>)
    ensures
        pairs_view(r@) == forwardable(pairs_view(headers@)),
{
    let mut r: Vec<Pair> = Vec::new();
    let mut i: usize = 0;
    while i < headers.len()
        invariant
            i <= headers.len(),
            pairs_view(r@) == forwardable(pairs_view(headers@).take(i as int)),
        decreases headers.len() - i,
    {
        let ghost hv = pairs_view(headers@);
        assert(hv.take(i + 1).drop_last() =~= hv.take(i as int));
        assert(hv.take(i + 1).last() == hv[i as int]);
        if is_header_allowed(headers[i].0.as_str()) {
            let h = (headers[i].0.clone(), headers[i].1.clone());
            r.push(h);
            assert(pairs_view(r@) =~= pairs_view(r@.drop_last()).push(hv[i as int]));
        }
        i += 1;
    }
    assert(pairs_view(headers@).take(headers.len() as int) =~= pairs_view(headers@));
    r
}

/// Two names that differ only in ASCII case get the same decision.
pub proof fn lemma_header_policy_ignores_case(a: Seq<char>, b: Seq<char>)
    requires
        ascii_lower(a) == ascii_lower(b),
    ensures
        header_allowed(a) == header_allowed(b),
{
}

/// Forwarding is decided by the header's name alone: two headers with the
/// same name are both kept or both dropped, whatever their values and the
/// direction they travel in, and filtering a list a second time changes
/// nothing.
pub proof fn lemma_header_policy_by_name(
    name: Seq<char>,
    v1: Seq<char>,
    v2: Seq<char>,
    h: Seq<(Seq<char>, Seq<char>)>,
)
    ensures
        forwardable(seq![(name, v1)]).len() == forwardable(seq![(name, v2)]).len(),
        forwardable(seq![(name, v1)]).len() == 1 <==> header_allowed(name),
        forwardable(forwardable(h)) == forwardable(h),
    decreases h.len(),
{
    assert(seq![(name, v1)].drop_last() =~= Seq::<(Seq<char>, Seq<char>)>::empty());
    assert(seq![(name, v2)].drop_last() =~= Seq::<(Seq<char>, Seq<char>)>::empty());
    assert(forwardable(Seq::<(Seq<char>, Seq<char>)>::empty()).len() == 0);
    assert(seq![(name, v1)].last() == (name, v1));
    if h.len() > 0 {
        lemma_header_policy_by_name(name, v1, v2, h.drop_last());
        let f = forwardable(h.drop_last());
        if header_allowed(h.last().0) {
            assert(forwardable(h) == f.push(h.last()));
            assert(f.push(h.last()).drop_last() =~= f);
        }
    }
}

} // verus!
