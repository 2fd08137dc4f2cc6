use crate::fold::{finding_text, fold_clip};
use crate::matching::{lower_of, lowercase, regex_match, CompiledPattern, PatternView};
use vstd::prelude::*;

verus! {

/// A ghost record of one reported match, the mathematical shadow of a
/// `SearchResult`.
pub ghost struct FindingView {
    pub path: Seq<char>,
    pub lineno: int,
    pub pattern_id: u32,
    pub text: Seq<char>,
}

/// One reported match of a pattern against one line of one file. Immutable
/// once created; it travels from the scanner that made it to the sink that
/// prints it.
pub struct SearchResult {
    pub path: String,
    pub lineno: usize,
    pub pattern_id: u32,
    pub text: String,
}

impl View for SearchResult {
    type V = FindingView;

    open spec fn view(&self) -> FindingView {
        FindingView {
            path: self.path@,
            lineno: self.lineno as int,
            pattern_id: self.pattern_id,
            text: self.text@,
        }
    }
}

impl DeepView for SearchResult {
    type V = FindingView;

    open spec fn deep_view(&self) -> FindingView {
        self.view()
    }
}

/// Whether one decoded line matches a rule: the pattern is applied to the
/// Unicode-lowercased line. A line that could not be decoded never matches.
pub open spec fn line_matches(pat: Seq<char>, line: Option<Seq<char>>) -> bool {
    match line {
        Some(l) => regex_match(pat, lower_of(l)),
        None => false,
    }
}

/// The characters of a decoded line; an undecodable line has none.
pub open spec fn line_text(line: Option<Seq<char>>) -> Seq<char> {
    match line {
        Some(l) => l,
        None => Seq::empty(),
    }
}

/// The findings one rule produces over the lines of one file, in line order:
/// line `i` (0-based) is reported as line number `i + 1` exactly when it
/// matches, carrying the folded line truncated to `max` characters.
pub open spec fn pattern_findings(
    path: Seq<char>,
    pid: u32,
    pat: Seq<char>,
    lines: Seq<Option<Seq<char>>>,
    max: nat,
) -> Seq<FindingView>
    decreases lines.len(),
{
    if lines.len() == 0 {
        Seq::empty()
    } else {
        let prefix = pattern_findings(path, pid, pat, lines.drop_last(), max);
        if line_matches(pat, lines.last()) {
            prefix.push(
                FindingView {
                    path,
                    lineno: lines.len() as int,
                    pattern_id: pid,
                    text: finding_text(line_text(lines.last()), max),
                },
            )
        } else {
            prefix
        }
    }
}

/// The findings a whole scan of one file produces: each rule makes its own
/// full pass over the lines, and the passes are concatenated in table order.
pub open spec fn scan_findings(
    path: Seq<char>,
    pats: Seq<PatternView>,
    lines: Seq<Option<Seq<char>>>,
    max: nat,
) -> Seq<FindingView>
    decreases pats.len(),
{
    if pats.len() == 0 {
        Seq::empty()
    } else {
        scan_findings(path, pats.drop_last(), lines, max) + pattern_findings(
            path,
            pats.last().id,
            pats.last().pat,
            lines,
            max,
        )
    }
}

/// What one reported finding must say of itself: it carries the scanned
/// path and the rule's identifier, points with a 1-based line number into
/// the file, that line matches the rule, and the text is the folded line
/// truncated to `max` characters.
pub open spec fn finding_ok(
    path: Seq<char>,
    pid: u32,
    pat: Seq<char>,
    lines: Seq<Option<Seq<char>>>,
    max: nat,
    f: FindingView,
) -> bool {
    &&& f.path == path
    &&& f.pattern_id == pid
    &&& 1 <= f.lineno <= lines.len()
    &&& line_matches(pat, lines[f.lineno - 1])
    &&& f.text == finding_text(line_text(lines[f.lineno - 1]), max)
}

/// One rule reports exactly one finding per matching line: every finding
/// points back to a matching line (no spurious reports), every matching
/// line is reported (no omissions), and line numbers are strictly ascending,
/// so no (rule, line) pair appears twice.
pub proof fn lemma_pattern_findings_exact(
    path: Seq<char>,
    pid: u32,
    pat: Seq<char>,
    lines: Seq<Option<Seq<char>>>,
    max: nat,
)
    ensures
        forall|k: int|
            0 <= k < pattern_findings(path, pid, pat, lines, max).len() ==> finding_ok(
                path,
                pid,
                pat,
                lines,
                max,
                #[trigger] pattern_findings(path, pid, pat, lines, max)[k],
            ),
        forall|i: int|
            0 <= i < lines.len() && line_matches(pat, #[trigger] lines[i]) ==> exists|k: int|
                0 <= k < pattern_findings(path, pid, pat, lines, max).len()
                    && #[trigger] pattern_findings(path, pid, pat, lines, max)[k].lineno == i + 1,
        forall|k1: int, k2: int|
            0 <= k1 < k2 < pattern_findings(path, pid, pat, lines, max).len()
                ==> #[trigger] pattern_findings(path, pid, pat, lines, max)[k1].lineno
                < #[trigger] pattern_findings(path, pid, pat, lines, max)[k2].lineno,
    decreases lines.len(),
{
    if lines.len() == 0 {
    } else {
        let sub = lines.drop_last();
        lemma_pattern_findings_exact(path, pid, pat, sub, max);
        let prev = pattern_findings(path, pid, pat, sub, max);
        let cur = pattern_findings(path, pid, pat, lines, max);
        assert(forall|i: int| 0 <= i < sub.len() ==> sub[i] == #[trigger] lines[i]);
        assert(forall|k: int| 0 <= k < prev.len() ==> #[trigger] cur[k] == prev[k]);
        assert forall|k: int| 0 <= k < prev.len() implies finding_ok(
            path,
            pid,
            pat,
            lines,
            max,
            cur[k],
        ) by {
            assert(finding_ok(path, pid, pat, sub, max, prev[k]));
            assert(lines[prev[k].lineno - 1] == sub[prev[k].lineno - 1]);
        }
        if line_matches(pat, lines.last()) {
            assert(cur == prev.push(
                FindingView {
                    path,
                    lineno: lines.len() as int,
                    pattern_id: pid,
                    text: finding_text(line_text(lines.last()), max),
                },
            ));
            assert(finding_ok(path, pid, pat, lines, max, cur[prev.len() as int]));
        }
        assert forall|i: int|
            0 <= i < lines.len() && line_matches(pat, lines[i]) implies exists|k: int|
            0 <= k < cur.len() && #[trigger] cur[k].lineno == i + 1 by {
            if i < lines.len() - 1 {
                let k = choose|k: int| 0 <= k < prev.len() && #[trigger] prev[k].lineno == i + 1;
                assert(cur[k].lineno == i + 1);
            } else {
                assert(cur[prev.len() as int].lineno == i + 1);
            }
        }
    }
}

/// How often a finding for the (rule, line) pair occurs in a report.
pub open spec fn count_findings(fs: Seq<FindingView>, pid: u32, lineno: int) -> nat
    decreases fs.len(),
{
    if fs.len() == 0 {
        0
    } else {
        count_findings(fs.drop_last(), pid, lineno) + (if fs.last().pattern_id == pid
            && fs.last().lineno == lineno {
            1nat
        } else {
            0nat
        })
    }
}

proof fn lemma_count_findings_concat(a: Seq<FindingView>, b: Seq<FindingView>, pid: u32, l: int)
    ensures
        count_findings(a + b, pid, l) == count_findings(a, pid, l) + count_findings(b, pid, l),
    decreases b.len(),
{
    if b.len() == 0 {
        assert(a + b =~= a);
    } else {
        lemma_count_findings_concat(a, b.drop_last(), pid, l);
        assert((a + b).drop_last() =~= a + b.drop_last());
        assert((a + b).last() == b.last());
    }
}

proof fn lemma_count_pattern_findings(
    path: Seq<char>,
    pid0: u32,
    pat: Seq<char>,
    lines: Seq<Option<Seq<char>>>,
    max: nat,
    pid: u32,
    l: int,
)
    ensures
        count_findings(pattern_findings(path, pid0, pat, lines, max), pid, l) == (if pid == pid0
            && 1 <= l <= lines.len() && line_matches(pat, lines[l - 1]) {
            1nat
        } else {
            0nat
        }),
    decreases lines.len(),
{
    if lines.len() == 0 {
    } else {
        let sub = lines.drop_last();
        lemma_count_pattern_findings(path, pid0, pat, sub, max, pid, l);
        if 1 <= l <= sub.len() {
            assert(sub[l - 1] == lines[l - 1]);
        }
        if line_matches(pat, lines.last()) {
            let prefix = pattern_findings(path, pid0, pat, sub, max);
            let f = FindingView {
                path,
                lineno: lines.len() as int,
                pattern_id: pid0,
                text: finding_text(line_text(lines.last()), max),
            };
            assert(prefix.push(f).drop_last() =~= prefix);
            assert(prefix.push(f).last() == f);
        }
    }
}

/// Exactly one finding per (rule, line) pair, over the whole scan: when the
/// table's identifiers are distinct, each rule reports each of its matching
/// lines once in the file's report, and a line it does not match never.
pub proof fn lemma_scan_findings_exact(
    path: Seq<char>,
    pats: Seq<PatternView>,
    lines: Seq<Option<Seq<char>>>,
    max: nat,
    pi: int,
    i: int,
)
    requires
        forall|p1: int, p2: int|
            0 <= p1 < p2 < pats.len() ==> (#[trigger] pats[p1]).id != (#[trigger] pats[p2]).id,
        0 <= pi < pats.len(),
        0 <= i < lines.len(),
    ensures
        count_findings(scan_findings(path, pats, lines, max), pats[pi].id, i + 1) == (
        if line_matches(pats[pi].pat, lines[i]) {
            1nat
        } else {
            0nat
        }),
    decreases pats.len(),
{
    let sub = pats.drop_last();
    let segment = pattern_findings(path, pats.last().id, pats.last().pat, lines, max);
    lemma_count_findings_concat(
        scan_findings(path, sub, lines, max),
        segment,
        pats[pi].id,
        i + 1,
    );
    lemma_count_pattern_findings(
        path,
        pats.last().id,
        pats.last().pat,
        lines,
        max,
        pats[pi].id,
        i + 1,
    );
    if pi == pats.len() - 1 {
        lemma_count_scan_absent(path, sub, lines, max, pats[pi].id, i + 1);
    } else {
        lemma_scan_findings_exact(path, sub, lines, max, pi, i);
        assert(sub[pi] == pats[pi]);
    }
}

proof fn lemma_count_scan_absent(
    path: Seq<char>,
    pats: Seq<PatternView>,
    lines: Seq<Option<Seq<char>>>,
    max: nat,
    pid: u32,
    l: int,
)
    requires
        forall|p: int| 0 <= p < pats.len() ==> (#[trigger] pats[p]).id != pid,
    ensures
        count_findings(scan_findings(path, pats, lines, max), pid, l) == 0,
    decreases pats.len(),
{
    if pats.len() == 0 {
    } else {
        let sub = pats.drop_last();
        lemma_count_scan_absent(path, sub, lines, max, pid, l);
        lemma_count_findings_concat(
            scan_findings(path, sub, lines, max),
            pattern_findings(path, pats.last().id, pats.last().pat, lines, max),
            pid,
            l,
        );
        lemma_count_pattern_findings(path, pats.last().id, pats.last().pat, lines, max, pid, l);
    }
}

/// Runs one compiled rule over the decoded lines of the file at `path`,
/// appending one finding for every matching line. A `None` entry stands for
/// a line that could not be decoded as text; it keeps its line number but is
/// silently skipped.
pub fn find_patterns(
    path: &String,
    p: &CompiledPattern,
    lines: &Vec<Option<String>>,
    results: &mut Vec<SearchResult>,
    max_text_len: usize,
)
    ensures
        final(results).deep_view() == old(results).deep_view() + pattern_findings(
            path@,
            p.model().id,
            p.model().pat,
            lines.deep_view(),
            max_text_len as nat,
        ),
{
    let ghost dv = lines.deep_view();
    let pid = p.pattern_id();
    let mut i: usize = 0;
    while i < lines.len()
        invariant
            i <= lines@.len(),
            dv == lines.deep_view(),
            dv.len() == lines@.len(),
            results.deep_view() == old(results).deep_view() + pattern_findings(
                path@,
                p.model().id,
                p.model().pat,
                dv.take(i as int),
                max_text_len as nat,
            ),
            pid == p.model().id,
        decreases lines@.len() - i,
    {
        proof {
            assert(dv.take(i + 1).drop_last() =~= dv.take(i as int));
            assert(dv.take(i + 1).last() == dv[i as int]);
            assert(dv[i as int] == lines@[i as int].deep_view());
        }
        let ghost results_before = results.deep_view();
        match &lines[i] {
            Some(l) => {
                let low = lowercase(l.as_str());
                if p.is_match(low.as_str()) {
                    let text = fold_clip(l.as_str(), max_text_len);
                    let f = SearchResult { path: path.clone(), lineno: i + 1, pattern_id: pid, text };
                    results.push(f);
                    proof {
                        assert(results.deep_view() =~= results_before.push(f@));
                    }
                }
            },
            None => {},
        }
        i += 1;
    }
    proof {
        assert(dv.take(lines@.len() as int) =~= dv);
    }
}

/// Scans the decoded lines of one file with the whole compiled table: each
/// rule gets an independent pass, and the findings arrive in rule order,
/// each rule's in ascending line order.
pub fn scan_lines(
    path: &String,
    pats: &Vec<CompiledPattern>,
    lines: &Vec<Option<String>>,
    max_text_len: usize,
) -> (results: Vec<SearchResult>)
    ensures
        results.deep_view() == scan_findings(
            path@,
            pats.deep_view(),
            lines.deep_view(),
            max_text_len as nat,
        ),
{
    let mut results: Vec<SearchResult> = Vec::new();
    let ghost pv = pats.deep_view();
    let mut j: usize = 0;
    while j < pats.len()
        invariant
            j <= pats@.len(),
            pv == pats.deep_view(),
            pv.len() == pats@.len(),
            results.deep_view() == scan_findings(
                path@,
                pv.take(j as int),
                lines.deep_view(),
                max_text_len as nat,
            ),
        decreases pats@.len() - j,
    {
        proof {
            assert(pv.take(j + 1).drop_last() =~= pv.take(j as int));
            assert(pv.take(j + 1).last() == pv[j as int]);
            assert(pv[j as int] == pats@[j as int].deep_view());
        }
        find_patterns(path, &pats[j], lines, &mut results, max_text_len);
        j += 1;
    }
    proof {
        assert(pv.take(pats@.len() as int) =~= pv);
    }
    results
}

} // verus!
