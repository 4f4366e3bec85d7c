use test_runner::adapter::SpawnInTerminal;
use test_runner::names::NameMap;
use test_runner::{DiscoveredTest, RunKind, RustAdapter, TestAdapter, TestStatus};

fn discovered(name: &str) -> DiscoveredTest {
    DiscoveredTest {
        name: name.to_string(),
        tag: "rust-test".to_string(),
        range: 0..0,
        extra_captures: NameMap::new(),
    }
}

#[test]
fn parses_libtest_output() {
    let output = "\
   Compiling foo v0.1.0 (/tmp/foo)
    Finished `test` profile [unoptimized + debuginfo] target(s) in 0.52s
     Running unittests src/lib.rs (target/debug/deps/foo-abc123)

running 4 tests
test tests::parser ... ok
test tests::lexer ... FAILED
test tests::slow ... ignored, requires network
test benches::tokenize ... bench:       1,000 ns/iter (+/- 10)

failures:

---- tests::lexer stdout ----
thread 'tests::lexer' panicked at src/lib.rs:5:9

failures:
    tests::lexer

test result: FAILED. 1 passed; 1 failed; 1 ignored; 0 measured; 0 filtered out
";
    assert_eq!(
        RustAdapter.parse_output(output),
        vec![
            ("tests::parser".to_string(), TestStatus::Passed),
            ("tests::lexer".to_string(), TestStatus::Failed),
            ("tests::slow".to_string(), TestStatus::Ignored),
        ]
    );
}

#[test]
fn widens_file_runs_to_all_test_filters() {
    let base = SpawnInTerminal {
        args: vec![
            "test".into(),
            "-p".into(),
            "foo".into(),
            "--".into(),
            "--nocapture".into(),
            "--include-ignored".into(),
            "alpha".into(),
        ],
        ..Default::default()
    };
    let targets = [discovered("alpha"), discovered("beta")];
    let prepared = RustAdapter.prepare_run(RunKind::File, &targets, base);
    assert_eq!(
        prepared.args,
        vec!["test", "-p", "foo", "--", "--include-ignored", "alpha", "beta"]
    );
}

#[test]
fn single_runs_only_drop_nocapture() {
    let base = SpawnInTerminal {
        args: vec!["test".into(), "--".into(), "--nocapture".into(), "alpha".into()],
        ..Default::default()
    };
    let targets = [discovered("alpha")];
    let prepared = RustAdapter.prepare_run(RunKind::SingleTest, &targets, base);
    assert_eq!(prepared.args, vec!["test", "--", "alpha"]);
}

#[test]
fn matches_reported_module_paths() {
    assert!(RustAdapter.matches_test("alpha", "alpha"));
    assert!(RustAdapter.matches_test("alpha", "tests::alpha"));
    assert!(RustAdapter.matches_test("alpha", "a::b::alpha"));
    assert!(!RustAdapter.matches_test("alpha", "tests::alphabet"));
    assert!(!RustAdapter.matches_test("alpha", "alpha::beta"));
}

fn args(values: &[&str]) -> Vec<String> {
    values.iter().map(|value| value.to_string()).collect()
}

#[test]
fn name_and_tags_of_the_rust_adapter() {
    assert_eq!(RustAdapter.name(), "rust");
    assert_eq!(RustAdapter.test_tags(), ["rust-test", "rust-doc-test"]);
}

#[test]
fn widening_appends_names_that_the_command_lacks() {
    let base = SpawnInTerminal {
        command: 5,
        label: "cargo test alpha".to_string(),
        full_label: "cargo test alpha -- --nocapture".to_string(),
        args: args(&["test", "--", "--nocapture"]),
    };
    let targets = [discovered("alpha"), discovered("beta"), discovered("gamma")];
    let prepared = RustAdapter.prepare_run(RunKind::File, &targets, base);
    assert_eq!(prepared.args, vec!["test", "--", "alpha", "beta", "gamma"]);
    assert_eq!(prepared.label, "cargo test (3 tests)");
    assert_eq!(prepared.full_label, "cargo test (3 tests)");
    assert_eq!(prepared.command, 5);
}

#[test]
fn widening_replaces_the_last_occurrence_of_the_name() {
    let base = SpawnInTerminal {
        args: args(&["alpha", "-p", "alpha", "--exact"]),
        ..Default::default()
    };
    let targets = [discovered("alpha"), discovered("beta")];
    let prepared = RustAdapter.prepare_run(RunKind::File, &targets, base);
    assert_eq!(prepared.args, vec!["alpha", "-p", "alpha", "beta", "--exact"]);
}

#[test]
fn labels_count_in_decimal() {
    let targets: Vec<DiscoveredTest> =
        (0..120).map(|index| discovered(&format!("test_{index}"))).collect();
    let prepared = RustAdapter.prepare_run(RunKind::File, &targets, SpawnInTerminal::default());
    assert_eq!(prepared.label, "cargo test (120 tests)");
    assert_eq!(prepared.args.len(), 120);
    assert_eq!(prepared.args[119], "test_119");
}

#[test]
fn file_runs_of_one_test_stay_single() {
    let base = SpawnInTerminal {
        command: 6,
        label: "label".to_string(),
        full_label: "full".to_string(),
        args: args(&["--nocapture", "test", "--nocapture", "alpha", "--nocapture"]),
    };
    let prepared = RustAdapter.prepare_run(RunKind::File, &[discovered("alpha")], base);
    assert_eq!(prepared.args, vec!["test", "alpha"]);
    assert_eq!(prepared.label, "label");
    assert_eq!(prepared.full_label, "full");
    assert_eq!(prepared.command, 6);
    let again = RustAdapter.prepare_run(RunKind::File, &[discovered("alpha")], prepared.clone());
    assert_eq!(again.args, prepared.args);
    let none = RustAdapter.prepare_run(RunKind::File, &[], again);
    assert_eq!(none.args, vec!["test", "alpha"]);
}

#[test]
fn single_runs_of_several_targets_are_not_widened() {
    let base = SpawnInTerminal { args: args(&["alpha"]), ..Default::default() };
    let targets = [discovered("alpha"), discovered("beta")];
    let prepared = RustAdapter.prepare_run(RunKind::SingleTest, &targets, base);
    assert_eq!(prepared.args, vec!["alpha"]);
    assert_eq!(prepared.label, "");
}

#[test]
fn names_match_the_last_segment_alone() {
    assert!(!RustAdapter.matches_test("b::alpha", "a::b::alpha"));
    assert!(RustAdapter.matches_test("a::b::alpha", "a::b::alpha"));
    assert!(RustAdapter.matches_test("", "a::"));
    assert!(RustAdapter.matches_test("b", "a:::b"));
    assert!(!RustAdapter.matches_test(":b", "a:::b"));
    assert!(RustAdapter.matches_test("größe", "maße::größe"));
    assert!(!RustAdapter.matches_test("alpha", ""));
}

#[test]
fn reads_windows_line_endings_and_an_unfinished_last_line() {
    assert_eq!(
        RustAdapter.parse_output("test a ... ok\r\n\r\ntest b ... FAILED\r\ntest c ... ignored"),
        vec![
            ("a".to_string(), TestStatus::Passed),
            ("b".to_string(), TestStatus::Failed),
            ("c".to_string(), TestStatus::Ignored),
        ]
    );
    assert_eq!(RustAdapter.parse_output(""), vec![]);
    assert_eq!(RustAdapter.parse_output("\n\n\r\n"), vec![]);
}

#[test]
fn more_output_adds_to_the_results() {
    let first = "running 2 tests\ntest a ... ok\n";
    let second = "test b ... FAILED\n";
    let mut both = RustAdapter.parse_output(first);
    both.extend(RustAdapter.parse_output(second));
    assert_eq!(RustAdapter.parse_output(&format!("{first}{second}")), both);
    assert_eq!(both.len(), 2);
}

#[test]
fn outputs_with_a_line_break_between_them_add_up() {
    for first in ["", "test a ... ok", "test a ... ok\r", "test a ... ok\n", "running 1 test"] {
        let second = "test b ... FAILED";
        let mut both = RustAdapter.parse_output(first);
        both.extend(RustAdapter.parse_output(second));
        assert_eq!(RustAdapter.parse_output(&format!("{first}\n{second}")), both);
    }
}
