//! Query-string parameters of an inbound request.

use vstd::prelude::*;
use qstring::QString;
use crate::text::{pairs_view, same_str, Pair};

verus! {

broadcast use vstd::string::group_string_axioms;

/// The percent-decoded (name, value) pairs of a query string, in order.
pub uninterp spec fn query_pairs(q: Seq<char>) -> Seq<(Seq<char>, Seq<char>)>;

/// The query string that encodes the given (name, value) pairs, in order.
pub uninterp spec fn query_string(p: Seq<(Seq<char>, Seq<char>)>) -> Seq<char>;

/// Relies on qstring's `QString::from` and `QString::into_pairs`: the
/// decoded pairs of `q`, in order; a name without `=` gets an empty value.
/// It slices one byte off each segment, so `q` must be ASCII, as an HTTP
/// request target is.
#[verifier::external_body]
fn parse_query(q: &str) -> (r: Vec<Pair>)
    requires
        vstd::string::is_ascii(q),
    ensures
        pairs_view(r@) == query_pairs(q@),
{
    QString::from(q).into_pairs()
}

/// Relies on qstring's `QString::new` and its `Display`: the pairs joined by
/// `&` as `name=value`, each part percent-encoded; no pairs give "".
#[verifier::external_body]
fn encode_query(pairs: Vec<Pair>) -> (r: String)
    ensures
        r@ == query_string(pairs_view(pairs@)),
        pairs@.len() == 0 ==> r@.len() == 0,
{
    QString::new(pairs).to_string()
}

/// The value of the first pair named `name`.
pub open spec fn first_value(p: Seq<(Seq<char>, Seq<char>)>, name: Seq<char>) -> Option<Seq<char>>
    decreases p.len(),
{
    if p.len() == 0 {
        None
    } else if p[0].0 == name {
        Some(p[0].1)
    } else {
        first_value(p.subrange(1, p.len() as int), name)
    }
}

/// A parameter that steers the proxy itself and is not sent upstream.
pub open spec fn is_control_param(name: Seq<char>) -> bool {
    name == "host"@ || name == "rewrite"@ || name == "avif"@
}

/// The pairs of `p` that are forwarded upstream, in their order.
pub open spec fn forwarded_params(p: Seq<(Seq<char>, Seq<char>)>) -> Seq<(Seq<char>, Seq<char>)>
    decreases p.len(),
{
    if p.len() == 0 {
        p
    } else if is_control_param(p.last().0) {
        forwarded_params(p.drop_last())
    } else {
        forwarded_params(p.drop_last()).push(p.last())
    }
}

/// The value of the first pair of `pairs` named `name`.
pub fn lookup(pairs: &Vec<Pair>, name: &str) -> (r: Option<String>)
    ensures
        match r {
            Some(v) => first_value(pairs_view(pairs@), name@) == Some(v@),
            None => first_value(pairs_view(pairs@), name@) is None,
        },
{
    let ghost pv = pairs_view(pairs@);
    let mut i: usize = 0;
    assert(pv.subrange(0, pv.len() as int) =~= pv);
    while i < pairs.len()
        invariant
            i <= pairs.len(),
            pv == pairs_view(pairs@),
            first_value(pv, name@) == first_value(pv.subrange(i as int, pv.len() as int), name@),
        decreases pairs.len() - i,
    {
        let ghost rest = pv.subrange(i as int, pv.len() as int);
        assert(rest.subrange(1, rest.len() as int) =~= pv.subrange(i + 1, pv.len() as int));
        if same_str(pairs[i].0.as_str(), name) {
            return Some(pairs[i].1.clone());
        }
        i += 1;
    }
    None
}

/// The parsed parameters of an inbound query string.
pub struct Query {
    pub pairs: Vec<Pair>,
}

impl Query {
    /// Parses an inbound query string, which is ASCII.
    pub fn parse(q: &str) -> (r: Query)
        requires
            vstd::string::is_ascii(q),
        ensures
            pairs_view(r.pairs@) == query_pairs(q@),
    {
        Query { pairs: parse_query(q) }
    }

    /// The value of the first parameter named `name`.
    pub fn get(&self, name: &str) -> (r: Option<String>)
        ensures
            match r {
                Some(v) => first_value(pairs_view(self.pairs@), name@) == Some(v@),
                None => first_value(pairs_view(self.pairs@), name@) is None,
            },
    {
        lookup(&self.pairs, name)
    }

    /// Whether the first parameter named `name` has exactly the value `value`.
    pub fn has_value(&self, name: &str, value: &str) -> (r: bool)
        ensures
            r == (first_value(pairs_view(self.pairs@), name@) == Some(value@)),
    {
        match self.get(name) {
            Some(v) => same_str(v.as_str(), value),
            None => false,
        }
    }

    /// The query string sent upstream: every parameter but `host`, `rewrite`
    /// and `avif`, in the inbound order.
    pub fn forwarded(&self) -> (r: String)
        ensures
            r@ == query_string(forwarded_params(pairs_view(self.pairs@))),
    {
        let ghost pv = pairs_view(self.pairs@);
        let mut kept: Vec<Pair> = Vec::new();
        let mut i: usize = 0;
        while i < self.pairs.len()
            invariant
                i <= self.pairs.len(),
                pv == pairs_view(self.pairs@),
                pairs_view(kept@) == forwarded_params(pv.take(i as int)),
            decreases self.pairs.len() - i,
        {
            assert(pv.take(i + 1).drop_last() =~= pv.take(i as int));
            assert(pv.take(i + 1).last() == pv[i as int]);
            let name = self.pairs[i].0.as_str();
            if !(same_str(name, "host") || same_str(name, "rewrite") || same_str(name, "avif")) {
                kept.push((self.pairs[i].0.clone(), self.pairs[i].1.clone()));
                assert(pairs_view(kept@) =~= pairs_view(kept@.drop_last()).push(pv[i as int]));
            }
            i += 1;
        }
        assert(pv.take(self.pairs.len() as int) =~= pv);
        encode_query(kept)
    }
}

} // verus!
