//! Frontend files rewritten to point at the configured backend.

use vstd::prelude::*;
use aho_corasick::AhoCorasick;
use crate::query::first_value;
use crate::text::{pairs_view, replace_all, same_str, Pair};

verus! {

broadcast use vstd::string::group_string_axioms;

/// The backend address the frontend files are built with.
pub const DEFAULT_BACKEND: &'static str = "https://pipedapi.kavin.rocks";

/// Relies on aho_corasick's `AhoCorasick::new` and `replace_all`: with one
/// non-empty pattern, each non-overlapping occurrence, leftmost first, is
/// replaced. Building only fails when state or pattern identifiers overflow,
/// which a pattern of this bounded length cannot cause.
#[verifier::external_body]
fn replace_pattern(haystack: &str, pattern: &str, with: &str) -> (r: String)
    requires
        0 < pattern@.len() <= 65536,
    ensures
        r@ == replace_all(haystack@, pattern@, with@),
{
    AhoCorasick::new([pattern]).expect("one short pattern").replace_all(haystack, &[with])
}

/// The files of `files` (path, text) whose text changes when the default
/// backend address is replaced by `address`, in order, with their new text.
pub open spec fn patched(files: Seq<(Seq<char>, Seq<char>)>, address: Seq<char>) -> Seq<
    (Seq<char>, Seq<char>),
>
    decreases files.len(),
{
    if files.len() == 0 {
        files
    } else {
        let new_text = replace_all(files.last().1, DEFAULT_BACKEND@, address);
        if new_text != files.last().1 {
            patched(files.drop_last(), address).push((files.last().0, new_text))
        } else {
            patched(files.drop_last(), address)
        }
    }
}

/// The frontend files whose text was rewritten, by path.
pub struct PatchedAssets {
    pub files: Vec<Pair>,
}

/// Rewrites the default backend address in the text files `files`
/// (path, text) to `address`, keeping exactly the files that changed.
pub fn patch_assets(files: &Vec<Pair>, address: &str) -> (r: PatchedAssets)
    ensures
        pairs_view(r.files@) == patched(pairs_view(files@), address@),
{
    proof {
        reveal_strlit("https://pipedapi.kavin.rocks");
    }
    assert(DEFAULT_BACKEND@.len() == 28);
    let ghost fv = pairs_view(files@);
    let mut out: Vec<Pair> = Vec::new();
    let mut i: usize = 0;
    while i < files.len()
        invariant
            i <= files.len(),
            fv == pairs_view(files@),
            DEFAULT_BACKEND@.len() == 28,
            pairs_view(out@) == patched(fv.take(i as int), address@),
        decreases files.len() - i,
    {
        assert(fv.take(i + 1).drop_last() =~= fv.take(i as int));
        assert(fv.take(i + 1).last() == fv[i as int]);
        let text = files[i].1.as_str();
        let new_text = replace_pattern(text, DEFAULT_BACKEND, address);
        if !same_str(new_text.as_str(), text) {
            let ghost before = out@;
            out.push((files[i].0.clone(), new_text));
            assert(out@.drop_last() =~= before);
            assert(pairs_view(out@) =~= pairs_view(before).push(
                (fv[i as int].0, replace_all(fv[i as int].1, DEFAULT_BACKEND@, address@)),
            ));
        }
        i += 1;
    }
    assert(fv.take(files.len() as int) =~= fv);
    PatchedAssets { files: out }
}

/// The rewritten text of the file at `target`, if it was rewritten.
pub fn get_patched_asset<'a>(assets: &'a PatchedAssets, target: &str) -> (r: Option<&'a str>)
    ensures
        match r {
            Some(t) => first_value(pairs_view(assets.files@), target@) == Some(t@),
            None => first_value(pairs_view(assets.files@), target@) is None,
        },
{
    let ghost pv = pairs_view(assets.files@);
    let mut i: usize = 0;
    assert(pv.subrange(0, pv.len() as int) =~= pv);
    while i < assets.files.len()
        invariant
            i <= assets.files.len(),
            pv == pairs_view(assets.files@),
            first_value(pv, target@) == first_value(pv.subrange(i as int, pv.len() as int), target@),
        decreases assets.files.len() - i,
    {
        let ghost rest = pv.subrange(i as int, pv.len() as int);
        assert(rest.subrange(1, rest.len() as int) =~= pv.subrange(i + 1, pv.len() as int));
        if same_str(assets.files[i].0.as_str(), target) {
            return Some(assets.files[i].1.as_str());
        }
        i += 1;
    }
    None
}

proof fn lemma_first_value_push(
    s: Seq<(Seq<char>, Seq<char>)>,
    e: (Seq<char>, Seq<char>),
    t: Seq<char>,
)
    ensures
        first_value(s.push(e), t) == (if first_value(s, t) is Some {
            first_value(s, t)
        } else if e.0 == t {
            Some(e.1)
        } else {
            None
        }),
    decreases s.len(),
{
    let p = s.push(e);
    if s.len() > 0 {
        assert(p[0] == s[0]);
        assert(p.subrange(1, p.len() as int) =~= s.subrange(1, s.len() as int).push(e));
        lemma_first_value_push(s.subrange(1, s.len() as int), e, t);
    } else {
        assert(p[0] == e);
        assert(p.subrange(1, p.len() as int) =~= Seq::<(Seq<char>, Seq<char>)>::empty());
        assert(first_value(Seq::<(Seq<char>, Seq<char>)>::empty(), t) is None);
    }
}

/// After patching, looking a path up finds a text exactly when some file at
/// that path changes when the default backend address is replaced, and what
/// it finds is that file's replaced text.
pub proof fn lemma_patched_lookup(
    files: Seq<(Seq<char>, Seq<char>)>,
    address: Seq<char>,
    target: Seq<char>,
)
    ensures
        first_value(patched(files, address), target) is Some <==> exists|j: int|
            0 <= j < files.len() && (#[trigger] files[j]).0 == target && replace_all(
                files[j].1,
                DEFAULT_BACKEND@,
                address,
            ) != files[j].1,
        first_value(patched(files, address), target) matches Some(x) ==> exists|j: int|
            0 <= j < files.len() && (#[trigger] files[j]).0 == target && x == replace_all(
                files[j].1,
                DEFAULT_BACKEND@,
                address,
            ) && x != files[j].1,
    decreases files.len(),
{
    if files.len() > 0 {
        let init = files.drop_last();
        let last = files.last();
        lemma_patched_lookup(init, address, target);
        let new_text = replace_all(last.1, DEFAULT_BACKEND@, address);
        if new_text != last.1 {
            lemma_first_value_push(patched(init, address), (last.0, new_text), target);
        }
        assert forall|j: int| 0 <= j < init.len() implies #[trigger] init[j] == files[j] by {}
        if first_value(patched(files, address), target) is None {
            assert forall|j: int|
                0 <= j < files.len() && (#[trigger] files[j]).0 == target implies replace_all(
                files[j].1,
                DEFAULT_BACKEND@,
                address,
            ) == files[j].1 by {
                if j < init.len() {
                    assert(init[j] == files[j]);
                }
            }
        }
        if first_value(patched(files, address), target) is Some {
            let x = first_value(patched(files, address), target)->0;
            if first_value(patched(init, address), target) is Some {
                let j = choose|j: int|
                    0 <= j < init.len() && (#[trigger] init[j]).0 == target && x == replace_all(
                        init[j].1,
                        DEFAULT_BACKEND@,
                        address,
                    ) && x != init[j].1;
                assert(files[j] == init[j]);
            } else {
                assert(files[files.len() - 1] == last);
            }
        }
    }
}

} // verus!
