//! Install directories on disk: where the binary sits in one, which of them
//! can serve when no release can be fetched, and which are stale after an install.

use vstd::prelude::*;
use vstd::string::*;
use crate::version::{Version, version_le, version_lt, version_of_dir, parse_version_dir};

verus! {

/// The executable's name, without the platform's suffix.
pub const SERVER_NAME: &'static str = "neocmakelsp";

/// Release directories are named this text followed by the release's version tag.
pub const RELEASE_DIR_PREFIX: &'static str = "neocmakelsp-";

/// Where the executable sits inside the install directory `dir`.
pub open spec fn binary_path_in(dir: Seq<char>, suffix: Seq<char>) -> Seq<char> {
    dir + "/"@ + SERVER_NAME@ + suffix
}

/// The install directory for a release whose version tag is `tag`.
pub open spec fn release_dir_of(tag: Seq<char>) -> Seq<char> {
    RELEASE_DIR_PREFIX@ + tag
}

pub fn binary_path(dir: &str, suffix: &str) -> (r: String)
    ensures
        r@ == binary_path_in(dir@, suffix@),
{
    let mut r = String::from_str(dir);
    r.append("/");
    r.append(SERVER_NAME);
    r.append(suffix);
    r
}

pub fn release_dir(tag: &str) -> (r: String)
    ensures
        r@ == release_dir_of(tag@),
{
    let mut r = String::from_str(RELEASE_DIR_PREFIX);
    r.append(tag);
    r
}

pub open spec fn views(names: Seq<String>) -> Seq<Seq<char>> {
    names.map_values(|s: String| s@)
}

/// An install directory found on disk: its version and where its binary would be.
#[derive(Debug)]
pub struct Candidate {
    pub version: Version,
    pub path: String,
}

pub open spec fn candidate_view(c: Candidate) -> (Version, Seq<char>) {
    (c.version, c.path@)
}

/// The well-formed install directories among `names`, in order, each with
/// its version and binary path; every other name is left out.
pub open spec fn candidates_of(names: Seq<Seq<char>>, suffix: Seq<char>) -> Seq<(Version, Seq<char>)>
    decreases names.len(),
{
    if names.len() == 0 {
        Seq::empty()
    } else {
        let prev = candidates_of(names.drop_last(), suffix);
        match version_of_dir(names.last()) {
            Some(v) => prev.push((v, binary_path_in(names.last(), suffix))),
            None => prev,
        }
    }
}

/// The candidates for the fallback scan among the entries `names` of the
/// working directory; malformed names are skipped, never reported.
pub fn fallback_candidates(names: &Vec<String>, suffix: &str) -> (r: Vec<Candidate>)
    ensures
        r@.map_values(|c: Candidate| candidate_view(c)) == candidates_of(views(names@), suffix@),
{
    let ghost ns = views(names@);
    let mut r: Vec<Candidate> = Vec::new();
    let mut i: usize = 0;
    assert(ns.take(0) =~= Seq::<Seq<char>>::empty());
    assert(r@.map_values(|c: Candidate| candidate_view(c)) =~= Seq::<(Version, Seq<char>)>::empty());
    while i < names.len()
        invariant
            i <= names.len(),
            ns == views(names@),
            r@.map_values(|c: Candidate| candidate_view(c)) == candidates_of(ns.take(i as int), suffix@),
        decreases names.len() - i,
    {
        assert(ns.take(i + 1).drop_last() =~= ns.take(i as int));
        assert(ns.take(i + 1).last() == names[i as int]@);
        let ghost before = r@;
        match parse_version_dir(names[i].as_str()) {
            Some(v) => {
                let path = binary_path(names[i].as_str(), suffix);
                r.push(Candidate { version: v, path });
                assert(r@.map_values(|c: Candidate| candidate_view(c)) =~= before.map_values(
                    |c: Candidate| candidate_view(c),
                ).push((v, path@)));
            },
            None => {},
        }
        i += 1;
    }
    assert(ns.take(i as int) =~= ns);
    r
}

/// `i` holds a present candidate whose version no other present candidate exceeds.
pub open spec fn is_newest(versions: Seq<Version>, present: Seq<bool>, i: int) -> bool {
    &&& 0 <= i < versions.len()
    &&& i < present.len()
    &&& present[i]
    &&& forall|j: int|
        0 <= j < versions.len() && j < present.len() && present[j] ==> version_le(
            #[trigger] versions[j],
            versions[i],
        )
}

pub open spec fn any_present(versions: Seq<Version>, present: Seq<bool>) -> bool {
    exists|j: int| 0 <= j < versions.len() && j < present.len() && #[trigger] present[j]
}

pub open spec fn versions_of(cands: Seq<Candidate>) -> Seq<Version> {
    cands.map_values(|c: Candidate| c.version)
}

/// Among the candidates whose binary is present, the one with the greatest version.
pub fn pick_newest(cands: &Vec<Candidate>, present: &Vec<bool>) -> (r: Option<usize>)
    ensures
        r is None <==> !any_present(versions_of(cands@), present@),
        r is Some ==> is_newest(versions_of(cands@), present@, r.unwrap() as int),
{
    let ghost vs = versions_of(cands@);
    let mut best: Option<usize> = None;
    let mut i: usize = 0;
    while i < cands.len()
        invariant
            i <= cands.len(),
            vs == versions_of(cands@),
            best is None <==> !(exists|j: int| 0 <= j < i && j < present.len() && #[trigger] present[j]),
            best is Some ==> {
                let b = best.unwrap() as int;
                &&& b < i && b < present.len() && present[b]
                &&& forall|j: int| 0 <= j < i && j < present.len() && present[j] ==> version_le(#[trigger] vs[j], vs[b])
            },
        decreases cands.len() - i,
    {
        if i < present.len() && present[i] {
            match best {
                None => {
                    best = Some(i);
                },
                Some(b) => {
                    if cands[i].version.is_newer_than(&cands[b].version) {
                        best = Some(i);
                    }
                },
            }
        }
        i += 1;
    }
    best
}

/// The version picked by the fallback scan is strictly greater than that of
/// every other present candidate, unless the two carry the same triple.
pub proof fn lemma_newest_is_strictly_greatest(versions: Seq<Version>, present: Seq<bool>, i: int, j: int)
    requires
        is_newest(versions, present, i),
        0 <= j < versions.len(),
        j < present.len(),
        present[j],
    ensures
        versions[j] == versions[i] || version_lt(versions[j], versions[i]),
{
    assert(version_le(versions[j], versions[i]));
}

proof fn lemma_candidates_come_from_names(names: Seq<Seq<char>>, suffix: Seq<char>, m: int)
    requires
        0 <= m < candidates_of(names, suffix).len(),
    ensures
        exists|k: int| 0 <= k < names.len() && #[trigger] version_of_dir(names[k]) is Some
            && candidates_of(names, suffix)[m].1 == binary_path_in(names[k], suffix),
    decreases names.len(),
{
    let prev = candidates_of(names.drop_last(), suffix);
    if m < prev.len() {
        lemma_candidates_come_from_names(names.drop_last(), suffix, m);
        let k = choose|k: int| 0 <= k < names.drop_last().len() && #[trigger] version_of_dir(names.drop_last()[k]) is Some
            && prev[m].1 == binary_path_in(names.drop_last()[k], suffix);
        assert(names[k] == names.drop_last()[k]);
    } else {
        let k = names.len() - 1;
        assert(version_of_dir(names[k]) is Some);
    }
}

proof fn lemma_binary_path_injective(a: Seq<char>, b: Seq<char>, suffix: Seq<char>)
    requires
        binary_path_in(a, suffix) == binary_path_in(b, suffix),
    ensures
        a == b,
{
    let tail = "/"@ + SERVER_NAME@ + suffix;
    assert(binary_path_in(a, suffix) =~= a + tail);
    assert(binary_path_in(b, suffix) =~= b + tail);
    assert(a =~= (a + tail).take(a.len() as int));
    assert(b =~= (b + tail).take(b.len() as int));
}

/// A malformed directory name never yields a candidate of the fallback scan.
pub proof fn lemma_malformed_names_excluded(names: Seq<Seq<char>>, suffix: Seq<char>, k: int)
    requires
        0 <= k < names.len(),
        version_of_dir(names[k]) is None,
    ensures
        forall|m: int| 0 <= m < candidates_of(names, suffix).len()
            ==> (#[trigger] candidates_of(names, suffix)[m]).1 != binary_path_in(names[k], suffix),
{
    assert forall|m: int| 0 <= m < candidates_of(names, suffix).len()
        implies (#[trigger] candidates_of(names, suffix)[m]).1 != binary_path_in(names[k], suffix) by {
        lemma_candidates_come_from_names(names, suffix, m);
        let k2 = choose|k2: int| 0 <= k2 < names.len() && #[trigger] version_of_dir(names[k2]) is Some
            && candidates_of(names, suffix)[m].1 == binary_path_in(names[k2], suffix);
        if candidates_of(names, suffix)[m].1 == binary_path_in(names[k], suffix) {
            lemma_binary_path_injective(names[k], names[k2], suffix);
        }
    }
}

/// The entries of `names` other than `keep`, in order.
pub open spec fn entries_except(names: Seq<Seq<char>>, keep: Seq<char>) -> Seq<Seq<char>>
    decreases names.len(),
{
    if names.len() == 0 {
        Seq::empty()
    } else {
        let prev = entries_except(names.drop_last(), keep);
        if names.last() == keep {
            prev
        } else {
            prev.push(names.last())
        }
    }
}

/// The entries of the working directory to delete once `keep` is installed.
pub fn stale_entries(names: &Vec<String>, keep: &str) -> (r: Vec<String>)
    ensures
        views(r@) == entries_except(views(names@), keep@),
{
    let ghost ns = views(names@);
    let mut r: Vec<String> = Vec::new();
    let mut i: usize = 0;
    assert(ns.take(0) =~= Seq::<Seq<char>>::empty());
    assert(views(r@) =~= Seq::<Seq<char>>::empty());
    let keep_owned = String::from_str(keep);
    while i < names.len()
        invariant
            i <= names.len(),
            ns == views(names@),
            keep_owned@ == keep@,
            views(r@) == entries_except(ns.take(i as int), keep@),
        decreases names.len() - i,
    {
        assert(ns.take(i + 1).drop_last() =~= ns.take(i as int));
        assert(ns.take(i + 1).last() == names[i as int]@);
        let ghost before = r@;
        if names[i] != keep_owned {
            r.push(names[i].clone());
            assert(views(r@) =~= views(before).push(names[i as int]@));
        }
        i += 1;
    }
    assert(ns.take(i as int) =~= ns);
    r
}

/// Deleting the stale entries leaves nothing in the directory but `keep`:
/// every other entry is among them, and `keep` is not.
pub proof fn lemma_cleanup_leaves_only_kept(names: Seq<Seq<char>>, keep: Seq<char>)
    ensures
        forall|k: int| 0 <= k < names.len() && names[k] != keep
            ==> entries_except(names, keep).contains(#[trigger] names[k]),
        !entries_except(names, keep).contains(keep),
    decreases names.len(),
{
    if names.len() > 0 {
        let prev = names.drop_last();
        lemma_cleanup_leaves_only_kept(prev, keep);
        let e = entries_except(names, keep);
        let pe = entries_except(prev, keep);
        assert forall|k: int| 0 <= k < names.len() && names[k] != keep
            implies e.contains(#[trigger] names[k]) by {
            if k < names.len() - 1 {
                assert(prev[k] == names[k]);
                let w = choose|w: int| 0 <= w < pe.len() && pe[w] == names[k];
                if names.last() != keep {
                    assert(e[w] == pe[w]);
                }
            } else {
                assert(e[e.len() - 1] == names[k]);
            }
        }
        if e.contains(keep) {
            let w = choose|w: int| 0 <= w < e.len() && e[w] == keep;
            if names.last() != keep {
                if w < pe.len() {
                    assert(pe[w] == keep);
                }
            } else {
                assert(pe[w] == keep);
            }
        }
    }
}

} // verus!
