use vstd::prelude::*;
use vstd::string::StrSliceExecFns;

verus! {

/// Whether a path names a candidate file: its last three characters are
/// `.py`. Directories and files of any other extension are skipped before
/// dispatch, whatever their contents.
pub open spec fn has_py_ext(p: Seq<char>) -> bool {
    p.len() >= 3 && p[p.len() - 3] == '.' && p[p.len() - 2] == 'p' && p[p.len() - 1] == 'y'
}

/// The candidate paths among an enumeration, in traversal order.
pub open spec fn candidate_paths(paths: Seq<Seq<char>>) -> Seq<Seq<char>>
    decreases paths.len(),
{
    if paths.len() == 0 {
        Seq::empty()
    } else {
        let rest = candidate_paths(paths.drop_last());
        if has_py_ext(paths.last()) {
            rest.push(paths.last())
        } else {
            rest
        }
    }
}

/// Decides whether one enumerated path is dispatched to the scanners.
pub fn is_candidate(path: &str) -> (r: bool)
    ensures
        r == has_py_ext(path@),
{
    let n = path.unicode_len();
    if n < 3 {
        return false;
    }
    let c1 = path.get_char(n - 3);
    let c2 = path.get_char(n - 2);
    let c3 = path.get_char(n - 1);
    c1 == '.' && c2 == 'p' && c3 == 'y'
}

/// Keeps exactly the candidate paths of an enumeration, in order.
pub fn select_candidates(paths: &Vec<String>) -> (r: Vec<String>)
    ensures
        r.deep_view() == candidate_paths(paths.deep_view()),
{
    let ghost dv = paths.deep_view();
    let mut r: Vec<String> = Vec::new();
    let mut i: usize = 0;
    while i < paths.len()
        invariant
            i <= paths@.len(),
            dv == paths.deep_view(),
            dv.len() == paths@.len(),
            r.deep_view() == candidate_paths(dv.take(i as int)),
        decreases paths@.len() - i,
    {
        proof {
            assert(dv.take(i + 1).drop_last() =~= dv.take(i as int));
            assert(dv.take(i + 1).last() == dv[i as int]);
            assert(dv[i as int] == paths@[i as int].deep_view());
        }
        let ghost r_before = r.deep_view();
        let p = &paths[i];
        if is_candidate(p.as_str()) {
            r.push(p.clone());
            proof {
                assert(r.deep_view() =~= r_before.push(p@));
            }
        }
        i += 1;
    }
    proof {
        assert(dv.take(paths@.len() as int) =~= dv);
    }
    r
}

} // verus!
