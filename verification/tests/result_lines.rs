use test_runner::rust_adapter::parse_result_line;
use test_runner::TestStatus;

fn passed(name: &str) -> Option<(String, TestStatus)> {
    Some((name.to_string(), TestStatus::Passed))
}

#[test]
fn reads_each_outcome() {
    assert_eq!(parse_result_line("test a ... ok"), passed("a"));
    assert_eq!(
        parse_result_line("test a ... FAILED"),
        Some(("a".to_string(), TestStatus::Failed))
    );
    assert_eq!(
        parse_result_line("test a ... ignored"),
        Some(("a".to_string(), TestStatus::Ignored))
    );
}

#[test]
fn passes_over_other_outcomes() {
    assert_eq!(parse_result_line("test a ... Ok"), None);
    assert_eq!(parse_result_line("test a ... okay"), None);
    assert_eq!(parse_result_line("test a ... bench: 10 ns/iter"), None);
    assert_eq!(parse_result_line("test a ... ,"), None);
    assert_eq!(parse_result_line("test a ... "), None);
    assert_eq!(parse_result_line("test a ..."), None);
}

#[test]
fn passes_over_other_lines() {
    assert_eq!(parse_result_line(""), None);
    assert_eq!(parse_result_line("test"), None);
    assert_eq!(parse_result_line("tests a ... ok"), None);
    assert_eq!(parse_result_line("a ... ok"), None);
    assert_eq!(parse_result_line("test result: FAILED. 1 passed; 1 failed"), None);
}

#[test]
fn whitespace_around_the_line_and_the_outcome_is_passed_over() {
    assert_eq!(parse_result_line(" \t test a ... ok \r\n"), passed("a"));
    assert_eq!(parse_result_line("\u{3000}test a ...  \u{2003} ok\u{a0}"), passed("a"));
    assert_eq!(parse_result_line("test  a  ... ok"), passed(" a "));
}

#[test]
fn commas_and_notes_may_follow_the_outcome() {
    assert_eq!(
        parse_result_line("test a ... ignored, requires network"),
        Some(("a".to_string(), TestStatus::Ignored))
    );
    assert_eq!(parse_result_line("test a ... ok,,, <1.2s>"), passed("a"));
    assert_eq!(parse_result_line("test a ... ok <1.2s>"), passed("a"));
    assert_eq!(parse_result_line("test a ... ok,x"), None);
}

#[test]
fn the_name_ends_at_the_first_dots() {
    assert_eq!(parse_result_line("test a - should panic ... ok"), passed("a - should panic"));
    assert_eq!(parse_result_line("test src/lib.rs - f (line 3) ... ok"), passed("src/lib.rs - f (line 3)"));
    assert_eq!(parse_result_line("test a ... ok ... FAILED"), passed("a"));
    assert_eq!(parse_result_line("test a ... b ... ok"), None);
    assert_eq!(parse_result_line("test  ... ok"), passed(""));
    assert_eq!(parse_result_line("test é::ü ... ok"), passed("é::ü"));
}
