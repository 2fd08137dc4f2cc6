use crate::matching::PatternView;
use crate::scan::{scan_findings, FindingView};
use vstd::multiset::Multiset;
use vstd::prelude::*;

verus! {

broadcast use vstd::seq_lib::group_to_multiset_ensures;

/// A ghost record of one file as the pipeline sees it: its path and its
/// decoded lines (`None` for a line that is not text).
pub ghost struct FileView {
    pub path: Seq<char>,
    pub lines: Seq<Option<Seq<char>>>,
}

/// The findings one file contributes, as a multiset: within the pipeline no
/// order is promised across files, only what arrives.
pub open spec fn file_findings(f: FileView, pats: Seq<PatternView>, max: nat) -> Multiset<
    FindingView,
> {
    scan_findings(f.path, pats, f.lines, max).to_multiset()
}

/// Everything a run over a tree reports: the findings of each enumerated
/// file, gathered into one multiset.
pub open spec fn tree_findings(
    files: Seq<FileView>,
    pats: Seq<PatternView>,
    max: nat,
) -> Multiset<FindingView>
    decreases files.len(),
{
    if files.len() == 0 {
        Multiset::empty()
    } else {
        tree_findings(files.drop_last(), pats, max).add(
            file_findings(files.last(), pats, max),
        )
    }
}

/// Taking any one file out of the enumeration takes exactly its findings
/// out of the run's multiset, wherever in the enumeration it stood.
pub proof fn lemma_tree_findings_remove(
    files: Seq<FileView>,
    i: int,
    pats: Seq<PatternView>,
    max: nat,
)
    requires
        0 <= i < files.len(),
    ensures
        tree_findings(files, pats, max) == tree_findings(files.remove(i), pats, max).add(
            file_findings(files[i], pats, max),
        ),
    decreases files.len(),
{
    if i == files.len() - 1 {
        assert(files.remove(i) =~= files.drop_last());
    } else {
        let sub = files.drop_last();
        lemma_tree_findings_remove(sub, i, pats, max);
        assert(files.remove(i).drop_last() =~= sub.remove(i));
        assert(files.remove(i).last() == files.last());
        assert(tree_findings(sub.remove(i), pats, max).add(
            file_findings(files[i], pats, max),
        ).add(file_findings(files.last(), pats, max)) =~= tree_findings(
            sub.remove(i),
            pats,
            max,
        ).add(file_findings(files.last(), pats, max)).add(file_findings(files[i], pats, max)));
    }
}

/// Concurrency safety: two runs that enumerate the same files — in any
/// order, and so however the files were dealt out to however many workers —
/// report the same multiset of findings.
pub proof fn lemma_tree_findings_order_free(
    a: Seq<FileView>,
    b: Seq<FileView>,
    pats: Seq<PatternView>,
    max: nat,
)
    requires
        a.to_multiset() == b.to_multiset(),
    ensures
        tree_findings(a, pats, max) == tree_findings(b, pats, max),
    decreases a.len(),
{
    if a.len() == 0 {
        assert(b.to_multiset().len() == 0);
        assert(b.len() == 0);
    } else {
        let x = a.last();
        assert(a.to_multiset().count(x) > 0) by {
            assert(a.contains(x));
        }
        assert(b.contains(x));
        let j = choose|j: int| 0 <= j < b.len() && b[j] == x;
        assert(a.drop_last() =~= a.remove(a.len() - 1));
        assert(a.drop_last().to_multiset() == b.remove(j).to_multiset()) by {
            assert(a.remove(a.len() - 1).to_multiset() == a.to_multiset().remove(x));
            assert(b.remove(j).to_multiset() == b.to_multiset().remove(x));
        }
        lemma_tree_findings_order_free(a.drop_last(), b.remove(j), pats, max);
        lemma_tree_findings_remove(b, j, pats, max);
    }
}

} // verus!
