use patch_lint::checks::apply_outcome;
use patch_lint::checks::icon;
use patch_lint::checks::is_blank_text;
use patch_lint::checks::mbox_author::check_author;
use patch_lint::checks::mbox_author::compile_patterns;
use patch_lint::checks::mbox_author::test_author_valid;
use patch_lint::checks::mbox_author::InvalidAuthors;
use patch_lint::checks::run_checks;
use patch_lint::checks::Level;
use patch_lint::checks::LintResult;
use patch_lint::checks::PatchError;
use patch_lint::checks::Summary;
use patch_lint::config::Config;
use patch_lint::config::ConfigError;
use patch_lint::patch::Patch;
use patch_lint::report;

const DIFF: &str = " a.txt | 1 +\n 1 file changed, 1 insertion(+)\n\ndiff --git a/a.txt b/a.txt\nnew file mode 100644\nindex 0000000..e69de29\n--- /dev/null\n+++ b/a.txt\n@@ -0,0 +1 @@\n+hello\n-- \n2.39.2\n";

fn patch_text(author: &str, summary: &str) -> Vec<u8> {
    format!(
        "From 1a2b3c4d Mon Sep 17 00:00:00 2001\nFrom: {}\nDate: Mon, 1 Jan 2024 10:00:00 +0000\nSubject: [PATCH] Add a file\n\n{}Signed-off-by: A U Thor <thor@kernel.org>\n---\n{}",
        author, summary, DIFF
    )
    .into_bytes()
}

fn patch_of(author: &str, summary: &str) -> Patch {
    Patch::from_bytes(&patch_text(author, summary)).unwrap()
}

fn deny(patterns: &[&str]) -> InvalidAuthors {
    InvalidAuthors {
        regular_expressions: patterns.iter().map(|p| p.to_string()).collect(),
    }
}

fn config(levels: Vec<(String, Level)>, patterns: &[&str]) -> Config {
    Config {
        invalid_authors: deny(patterns),
        levels,
    }
}

fn matches_of(r: &LintResult) -> Vec<String> {
    match &r.test_result {
        Err(PatchError::Author { matches }) => matches.clone(),
        _ => panic!("not an author failure"),
    }
}

#[test]
fn test_summary() {
    let fail = patch_of("Jane Doe <jane@kernel.org>", "");
    assert!(Summary::check(&fail).test_result.is_err());
    let pass = patch_of("Jane Doe <jane@kernel.org>", "Adds a greeting file.\n\n");
    assert!(Summary::check(&pass).test_result.is_ok());
}

#[test]
fn test_author() {
    let invalid = deny(&["example"]);
    for (author, bad) in [
        ("John Doe <john@example.com>", true),
        ("John Doe <john@kernel.org>", false),
        ("example <jd@host.org>", true),
        ("Jane Roe <jane@host.org>", false),
    ] {
        let patch = patch_of(author, "Body.\n\n");
        let r = test_author_valid(&patch, &invalid).unwrap();
        assert_eq!(r.test_result.is_err(), bad);
    }
}

#[test]
fn summary_whitespace_only_fails() {
    let patch = patch_of("Jane Doe <jane@kernel.org>", " \t\n\n");
    let r = Summary::check(&patch);
    assert_eq!(r.meta_info.name, "summary");
    match r.test_result {
        Err(PatchError::HeaderField { message }) => assert_eq!(message, "summary is empty"),
        _ => panic!("expected a missing field"),
    }
}

#[test]
fn summary_with_text_passes() {
    let r = Summary::check(&patch_of("J <j@kernel.org>", "x\n\n"));
    assert_eq!(r.meta_info.name, "summary");
    assert!(r.test_result.is_ok());
}

#[test]
fn blank_text_rules() {
    assert!(is_blank_text(""));
    assert!(is_blank_text(" \t\r\n\u{a0}\u{3000}"));
    assert!(!is_blank_text("  a "));
}

#[test]
fn author_failure_lists_every_matching_pattern() {
    let patch = patch_of("John Doe <john@example.com>", "Body.\n\n");
    let invalid = deny(&["example", "nomatch", "john", "Doe"]);
    let r = test_author_valid(&patch, &invalid).unwrap();
    assert_eq!(r.meta_info.name, "valid author");
    assert_eq!(matches_of(&r), vec!["example", "john", "Doe"]);
}

#[test]
fn author_passes_with_empty_deny_list() {
    let patch = patch_of("John Doe <john@example.com>", "Body.\n\n");
    let r = test_author_valid(&patch, &deny(&[])).unwrap();
    assert!(r.test_result.is_ok());
}

#[test]
fn author_regex_is_a_regex_not_a_substring() {
    let patch = patch_of("John Doe <john@example.com>", "Body.\n\n");
    let patterns = compile_patterns(&deny(&["^From: J.hn", "^John"])).unwrap();
    assert_eq!(patterns[0].source(), "^From: J.hn");
    let r = check_author(&patch.header.author, &patterns);
    assert_eq!(matches_of(&r), vec!["^From: J.hn"]);
}

#[test]
fn invalid_pattern_is_a_config_error() {
    let patch = patch_of("John Doe <john@example.com>", "Body.\n\n");
    match test_author_valid(&patch, &deny(&["ok", "(unclosed", "[also"])) {
        Err(ConfigError::InvalidPattern { index, pattern }) => {
            assert_eq!(index, 1);
            assert_eq!(pattern, "(unclosed");
        }
        Ok(_) => panic!("expected a configuration error"),
    }
}

#[test]
fn unconfigured_level_is_error() {
    let c = config(vec![("summary".to_string(), Level::Warning)], &[]);
    assert_eq!(c.get_error_level("valid author"), Level::Error);
    assert_eq!(c.get_error_level("summary"), Level::Warning);
    let empty = config(vec![], &[]);
    assert_eq!(empty.get_error_level("summary"), Level::Error);
}

#[test]
fn first_configured_level_wins() {
    let c = config(
        vec![
            ("apply patch".to_string(), Level::Skip),
            ("apply patch".to_string(), Level::Warning),
        ],
        &[],
    );
    assert_eq!(c.get_error_level("apply patch"), Level::Skip);
}

#[test]
fn icons() {
    assert_eq!(icon(&Level::Error), "❌");
    assert_eq!(icon(&Level::Warning), "⚠");
    assert_eq!(icon(&Level::Skip), "s");
    assert_eq!(report::icon(&Level::Error), "❌");
    assert_eq!(report::icon(&Level::Warning), "⚠");
    assert_eq!(report::icon(&Level::Skip), "s");
}

#[test]
fn apply_failure_is_wrapped() {
    let r = apply_outcome(Err(git2::Error::from_str("patch does not apply")));
    assert_eq!(r.meta_info.name, "apply patch");
    match &r.test_result {
        Err(PatchError::Apply { source }) => assert_eq!(source.message(), "patch does not apply"),
        _ => panic!("expected an apply failure"),
    }
    let text = report::failure_text(r.test_result.as_ref().unwrap_err());
    assert_eq!(
        text,
        "Patch cannot be applied. meta: patch does not apply (patch does not apply)"
    );
    assert!(apply_outcome(Ok(())).test_result.is_ok());
}

#[test]
fn end_to_end_scenario() {
    let patch = patch_of("a@example.com", "");
    let c = config(vec![], &["example"]);
    let patterns = compile_patterns(&c.invalid_authors).unwrap();
    let results = run_checks(&patch, Ok(()), &patterns);
    let names: Vec<&str> = results.iter().map(|r| r.meta_info.name.as_str()).collect();
    assert_eq!(names, vec!["summary", "apply patch", "valid author"]);
    assert!(results[0].test_result.is_err());
    assert!(results[1].test_result.is_ok());
    assert_eq!(matches_of(&results[2]), vec!["example"]);
    let lines = report::report_lines(&results, &c);
    assert_eq!(
        lines,
        vec![
            "❌ Header field is missing (summary is empty)".to_string(),
            "✅ apply patch".to_string(),
            "❌ Found an invalid author (example)".to_string(),
        ]
    );
}

#[test]
fn report_uses_configured_level() {
    let patch = patch_of("a@example.com", "");
    let c = config(
        vec![
            ("summary".to_string(), Level::Skip),
            ("valid author".to_string(), Level::Warning),
        ],
        &["example", "a@"],
    );
    let patterns = compile_patterns(&c.invalid_authors).unwrap();
    let results = run_checks(&patch, Ok(()), &patterns);
    let lines = report::report_lines(&results, &c);
    assert_eq!(lines[0], "s Header field is missing (summary is empty)");
    assert_eq!(lines[2], "⚠ Found an invalid author (example, a@)");
    let author = test_author_valid(&patch, &deny(&["example", "a@", "zzz"])).unwrap();
    assert_eq!(matches_of(&author), vec!["example", "a@"]);
}

#[test]
fn running_the_checks_twice_gives_the_same_outcomes() {
    let patch = patch_of("a@example.com", "Body.\n\n");
    let c = config(vec![], &["example", "zzz"]);
    let patterns = compile_patterns(&c.invalid_authors).unwrap();
    let first = report::report_lines(&run_checks(&patch, Ok(()), &patterns), &c);
    let second = report::report_lines(&run_checks(&patch, Ok(()), &patterns), &c);
    assert_eq!(first, second);
}

#[test]
fn default_config_is_empty() {
    let c = Config::default();
    assert!(c.levels.is_empty());
    assert!(InvalidAuthors::default().regular_expressions.is_empty());
    assert_eq!(c.get_error_level("apply patch"), Level::Error);
}

#[test]
fn set_level_replaces_and_adds() {
    let mut c = Config::default();
    c.set_level("summary".to_string(), Level::Warning);
    c.set_level("apply patch".to_string(), Level::Skip);
    c.set_level("summary".to_string(), Level::Skip);
    assert_eq!(c.levels.len(), 2);
    assert_eq!(c.get_error_level("summary"), Level::Skip);
    assert_eq!(c.get_error_level("apply patch"), Level::Skip);
    assert_eq!(c.get_error_level("valid author"), Level::Error);
}
