use xgrep::fold::fold_clip;
use xgrep::report::{render_error, render_finding, u64_to_dec};
use xgrep::scan::SearchResult;
use xgrep::walker::{is_candidate, select_candidates};

#[test]
fn report_line_has_the_fixed_format() {
    let f = SearchResult {
        path: "a.py".to_string(),
        lineno: 2,
        pattern_id: 3,
        text: "password = 'hunter2'".to_string(),
    };
    let line = render_finding(&f);
    assert_eq!(line, "3 found. File: a.py, line: 2, text: password = 'hunter2'");
}

#[test]
fn diagnostic_line_has_the_fixed_prefix() {
    assert_eq!(
        render_error("Permission denied (os error 13)"),
        "ERROR: Permission denied (os error 13)"
    );
}

#[test]
fn decimal_rendering_is_exact() {
    assert_eq!(u64_to_dec(0), "0");
    assert_eq!(u64_to_dec(7), "7");
    assert_eq!(u64_to_dec(42), "42");
    assert_eq!(u64_to_dec(100), "100");
    assert_eq!(u64_to_dec(18446744073709551615), "18446744073709551615");
}

#[test]
fn folding_lowercases_ascii_only() {
    assert_eq!(fold_clip("AbC", 100), "abc");
    assert_eq!(fold_clip("ABCDE", 3), "abc");
    assert_eq!(fold_clip("", 5), "");
    assert_eq!(fold_clip("PÄSS", 100), "pÄss");
}

#[test]
fn only_py_paths_are_candidates() {
    assert!(is_candidate("a.py"));
    assert!(is_candidate("dir/deep/run.py"));
    assert!(!is_candidate("b.txt"));
    assert!(!is_candidate("py"));
    assert!(!is_candidate("a.pyc"));
    assert!(!is_candidate(""));
}

#[test]
fn candidate_selection_filters_and_keeps_order() {
    let paths = vec![
        "dir".to_string(),
        "dir/b.txt".to_string(),
        "dir/a.py".to_string(),
        "dir/sub/c.py".to_string(),
    ];
    let picked = select_candidates(&paths);
    assert_eq!(picked, vec!["dir/a.py".to_string(), "dir/sub/c.py".to_string()]);
}
