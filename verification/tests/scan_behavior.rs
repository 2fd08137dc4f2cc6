use xgrep::matching::compile_patterns;
use xgrep::patterns::{python_sub_patterns, Pattern};
use xgrep::scan::{scan_lines, SearchResult};

fn lines_of(xs: &[&str]) -> Vec<Option<String>> {
    let mut v: Vec<Option<String>> = Vec::new();
    for x in xs {
        v.push(Some(x.to_string()));
    }
    v
}

fn scan_with(
    pats: &[(u32, &'static str)],
    path: &str,
    lines: &Vec<Option<String>>,
    max: usize,
) -> Vec<SearchResult> {
    let mut table: Vec<Pattern> = Vec::new();
    for (id, pattern) in pats {
        table.push(Pattern { id: *id, pattern, description: "test rule" });
    }
    let compiled = compile_patterns(&table).expect("patterns must compile");
    scan_lines(&path.to_string(), &compiled, lines, max)
}

#[test]
fn end_to_end_password_example() {
    let lines = lines_of(&["x = 1", "PASSWORD = 'hunter2'", "# nothing"]);
    let found = scan_with(&[(3, "password")], "a.py", &lines, 100);
    assert_eq!(found.len(), 1);
    assert_eq!(found[0].path, "a.py");
    assert_eq!(found[0].lineno, 2);
    assert_eq!(found[0].pattern_id, 3);
    assert_eq!(found[0].text, "password = 'hunter2'");
}

#[test]
fn truncation_keeps_exact_prefix_of_folded_line() {
    let lines = lines_of(&["PASSWORD = 'hunter2'"]);
    let found = scan_with(&[(3, "password")], "a.py", &lines, 10);
    assert_eq!(found.len(), 1);
    assert_eq!(found[0].text, "password =");
    assert_eq!(found[0].text.chars().count(), 10);
}

#[test]
fn truncation_limit_zero_still_reports() {
    let lines = lines_of(&["PASSWORD"]);
    let found = scan_with(&[(3, "password")], "a.py", &lines, 0);
    assert_eq!(found.len(), 1);
    assert_eq!(found[0].text, "");
}

#[test]
fn truncation_counts_characters_not_bytes() {
    let lines = lines_of(&["ÄÄSECRETÄÄ"]);
    let found = scan_with(&[(4, "secret")], "a.py", &lines, 4);
    assert_eq!(found.len(), 1);
    assert_eq!(found[0].text, "ÄÄse");
}

#[test]
fn line_numbers_are_one_based_and_count_undecodable_lines() {
    let mut lines = lines_of(&["password = 1"]);
    lines.push(None);
    lines.push(Some("PassWord = 2".to_string()));
    let found = scan_with(&[(3, "password")], "f.py", &lines, 100);
    assert_eq!(found.len(), 2);
    assert_eq!(found[0].lineno, 1);
    assert_eq!(found[1].lineno, 3);
    for f in &found {
        assert!(1 <= f.lineno && f.lineno <= lines.len());
    }
}

#[test]
fn one_finding_per_pattern_line_pair() {
    let lines = lines_of(&["secret password", "nothing here", "more secrets"]);
    let found = scan_with(&[(3, "password"), (4, "secret")], "f.py", &lines, 100);
    let mut seen: Vec<(u32, usize)> = Vec::new();
    for f in &found {
        seen.push((f.pattern_id, f.lineno));
    }
    let expected: Vec<(u32, usize)> = vec![(3, 1), (4, 1), (4, 3)];
    assert_eq!(seen, expected);
}

#[test]
fn each_pattern_makes_its_own_pass_in_table_order() {
    let lines = lines_of(&["secret password", "PASSWORD SECRET"]);
    let found = scan_with(&[(3, "password"), (4, "secret")], "f.py", &lines, 100);
    let ids: Vec<u32> = found.iter().map(|f| f.pattern_id).collect();
    assert_eq!(ids, vec![3, 3, 4, 4]);
    let nums: Vec<usize> = found.iter().map(|f| f.lineno).collect();
    assert_eq!(nums, vec![1, 2, 1, 2]);
}

#[test]
fn anchored_pattern_text_is_honored() {
    let lines = lines_of(&["my PASSWORD", "PASSWORD first"]);
    let found = scan_with(&[(7, "^password")], "f.py", &lines, 100);
    assert_eq!(found.len(), 1);
    assert_eq!(found[0].lineno, 2);
}

#[test]
fn matching_is_case_insensitive_through_folding() {
    let lines = lines_of(&["DJANGO_SECRET_KEY = 'x'"]);
    let table = python_sub_patterns();
    let compiled = compile_patterns(&table).expect("default table must compile");
    let found = scan_lines(&"settings.py".to_string(), &compiled, &lines, 100);
    let ids: Vec<u32> = found.iter().map(|f| f.pattern_id).collect();
    assert_eq!(ids, vec![2, 4]);
    assert_eq!(found[0].text, "django_secret_key = 'x'");
}

#[test]
fn default_pattern_table_contents() {
    let table = python_sub_patterns();
    assert_eq!(table.len(), 4);
    let ids: Vec<u32> = table.iter().map(|p| p.id).collect();
    assert_eq!(ids, vec![1, 2, 3, 4]);
    assert_eq!(table[0].pattern, "^.*django_settings_module.*");
    assert_eq!(table[1].pattern, "^.*django_secret_key.*$");
    assert_eq!(table[2].pattern, "^.*password.*$");
    assert_eq!(table[3].pattern, "^.*secret.*$");
    assert_eq!(table[2].description, "password found");
}

#[test]
fn malformed_pattern_fails_at_construction() {
    let table = vec![
        Pattern { id: 1, pattern: "fine", description: "ok" },
        Pattern { id: 9, pattern: "foo(", description: "unclosed group" },
    ];
    assert!(compile_patterns(&table).is_none());
}

#[test]
fn empty_file_and_empty_table_yield_nothing() {
    let no_lines: Vec<Option<String>> = Vec::new();
    let found = scan_with(&[(3, "password")], "f.py", &no_lines, 100);
    assert_eq!(found.len(), 0);
    let lines = lines_of(&["password"]);
    let found = scan_with(&[], "f.py", &lines, 100);
    assert_eq!(found.len(), 0);
}

#[test]
fn scan_order_of_files_does_not_change_the_set_of_findings() {
    let table = python_sub_patterns();
    let compiled = compile_patterns(&table).expect("default table must compile");
    let files = vec![
        ("a.py", lines_of(&["PASSWORD = 1", "x"])),
        ("b.py", lines_of(&["nothing", "secret sauce"])),
        ("c.py", lines_of(&["DJANGO_SETTINGS_MODULE=app"])),
    ];
    let mut forward: Vec<(String, u32, usize, String)> = Vec::new();
    for (path, lines) in &files {
        for f in scan_lines(&path.to_string(), &compiled, lines, 100) {
            forward.push((f.path, f.pattern_id, f.lineno, f.text));
        }
    }
    let mut backward: Vec<(String, u32, usize, String)> = Vec::new();
    for (path, lines) in files.iter().rev() {
        for f in scan_lines(&path.to_string(), &compiled, lines, 100) {
            backward.push((f.path, f.pattern_id, f.lineno, f.text));
        }
    }
    assert!(forward.len() > 0);
    forward.sort();
    backward.sort();
    assert_eq!(forward, backward);
}
