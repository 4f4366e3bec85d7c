use std::sync::Arc;

use test_runner::adapter::SpawnInTerminal;
use test_runner::discovery::{discover, find_adapter, Runnable};
use test_runner::manager::BufferChange;
use test_runner::names::NameMap;
use test_runner::resolve::{
    resolve, ResolveReply, ResolveRequest, ResolveStep, RunError, TaskTemplate,
};
use test_runner::run::{PreparedRun, RunRequest, TaskStatus, TestRunEvent};
use test_runner::run_task::{RunAction, RunEvent, RunStep, RunTask};
use test_runner::{
    default_adapters, DiscoveredTest, RunKind, RustAdapter, TestAdapter, TestRunnerManager,
    TestStatus,
};

type Manager = TestRunnerManager<RustAdapter>;

fn test_with_tag(name: &str, tag: &str) -> DiscoveredTest {
    DiscoveredTest {
        name: name.to_string(),
        tag: tag.to_string(),
        range: 10..20,
        extra_captures: NameMap::new(),
    }
}

fn test(name: &str) -> DiscoveredTest {
    test_with_tag(name, "rust-test")
}

fn spawn(args: &[&str]) -> SpawnInTerminal {
    SpawnInTerminal {
        args: args.iter().map(|arg| arg.to_string()).collect(),
        ..Default::default()
    }
}

fn prepared(names: &[&str]) -> PreparedRun<RustAdapter> {
    PreparedRun {
        spawn: spawn(&["test"]),
        targets: names.iter().map(|name| test(name)).collect(),
        adapter: Arc::new(RustAdapter),
    }
}

fn tests_named(names: &[&str]) -> Vec<Runnable> {
    names.iter().map(|name| runnable(name, &["rust-test"])).collect()
}

fn manager_with(names: &[&str]) -> Manager {
    let mut manager = TestRunnerManager::new(default_adapters());
    manager.set_active_buffer(Some(1), true);
    manager.discovery_finished(1, &tests_named(names));
    manager
}

fn running(names: &[&str]) -> Manager {
    let mut manager = manager_with(names);
    let run = prepared(names);
    manager.execute(&run, None);
    manager.run_started(run, 7);
    manager
}

fn names(tests: &[DiscoveredTest]) -> Vec<&str> {
    tests.iter().map(|test| test.name.as_str()).collect()
}

#[test]
fn a_new_manager_knows_nothing() {
    let manager: Manager = TestRunnerManager::new(default_adapters());
    assert!(manager.discovered_tests().is_empty());
    assert_eq!(manager.status("alpha"), TestStatus::NotRun);
    assert_eq!(manager.buffer(true), None);
    assert_eq!(manager.error(), None);
    assert_eq!(manager.run_terminal(), None);
    assert!(!manager.has_last_run());
    assert!(!manager.is_running(Some(TaskStatus::Running)));
    assert_eq!(manager.stop(Some(TaskStatus::Running)), None);
    assert_eq!(manager.adapters().len(), 1);
}

#[test]
fn default_status_is_not_run() {
    assert_eq!(TestStatus::default(), TestStatus::NotRun);
}

#[test]
fn another_buffer_forgets_results_and_asks_for_discovery() {
    let mut manager = running(&["alpha"]);
    assert_eq!(manager.status("alpha"), TestStatus::Running);
    assert!(matches!(manager.set_active_buffer(Some(1), true), BufferChange::Unchanged));
    assert_eq!(manager.status("alpha"), TestStatus::Running);
    assert!(matches!(
        manager.set_active_buffer(Some(2), true),
        BufferChange::Discover { buffer: 2 }
    ));
    assert_eq!(manager.status("alpha"), TestStatus::NotRun);
    assert_eq!(names(manager.discovered_tests()), vec!["alpha"]);
    assert_eq!(manager.buffer(true), Some(2));
    assert_eq!(manager.buffer(false), None);
    assert!(manager.has_last_run());
}

#[test]
fn a_released_buffer_can_become_active_again() {
    let mut manager = manager_with(&["alpha"]);
    assert!(matches!(
        manager.set_active_buffer(Some(1), false),
        BufferChange::Discover { buffer: 1 }
    ));
}

#[test]
fn no_buffer_clears_the_list() {
    let mut manager = manager_with(&["alpha"]);
    match manager.set_active_buffer(None, true) {
        BufferChange::Cleared { effects } => {
            assert_eq!(effects.events, vec![TestRunEvent::DiscoveryUpdated]);
            assert!(effects.notify);
        }
        _ => panic!("expected the list to be cleared"),
    }
    assert!(manager.discovered_tests().is_empty());
    assert_eq!(manager.buffer(true), None);
    assert!(matches!(manager.set_active_buffer(None, true), BufferChange::Unchanged));
}

#[test]
fn a_released_buffer_counts_as_none() {
    let mut manager = running(&["alpha"]);
    assert_eq!(manager.buffer(false), None);
    assert!(matches!(manager.set_active_buffer(None, false), BufferChange::Unchanged));
    assert_eq!(names(manager.discovered_tests()), vec!["alpha"]);
    assert_eq!(manager.status("alpha"), TestStatus::Running);
    assert!(manager.run_file(false).is_none());
}

#[test]
fn late_discoveries_do_not_bring_tests_back() {
    let mut manager = manager_with(&["alpha"]);
    manager.set_active_buffer(None, true);
    let effects = manager.discovery_finished(1, &tests_named(&["alpha"]));
    assert!(effects.events.is_empty());
    assert!(!effects.notify);
    assert!(manager.discovered_tests().is_empty());
    manager.set_active_buffer(Some(2), true);
    manager.discovery_finished(1, &tests_named(&["alpha"]));
    assert!(manager.discovered_tests().is_empty());
    let effects = manager.discovery_finished(2, &tests_named(&["beta"]));
    assert_eq!(effects.events, vec![TestRunEvent::DiscoveryUpdated]);
    assert_eq!(names(manager.discovered_tests()), vec!["beta"]);
}

fn runnable(name: &str, tags: &[&str]) -> Runnable {
    let mut extra_captures = NameMap::new();
    extra_captures.insert("_name".to_string(), name.to_string());
    Runnable {
        tags: tags.iter().map(|tag| tag.to_string()).collect(),
        name: name.to_string(),
        range: 3..5,
        extra_captures,
    }
}

#[test]
fn discovers_runnables_with_test_tags_in_order() {
    let adapters = default_adapters();
    let tests = discover(
        &adapters,
        &vec![
            runnable("main", &["rust-main"]),
            runnable("beta", &["rust-bin", "rust-doc-test", "rust-test"]),
            runnable("none", &[]),
            runnable("alpha", &["rust-test"]),
        ],
    );
    assert_eq!(names(&tests), vec!["beta", "alpha"]);
    assert_eq!(tests[0].tag, "rust-doc-test");
    assert_eq!(tests[1].tag, "rust-test");
    assert_eq!(tests[0].range, 3..5);
    assert_eq!(tests[0].extra_captures.get("_name"), Some(&"beta".to_string()));
    assert!(find_adapter(&adapters, "rust-doc-test").is_some());
    assert!(find_adapter(&adapters, "rust-main").is_none());
}

#[test]
fn discovered_tests_can_be_asked_for() {
    let mut manager = TestRunnerManager::new(default_adapters());
    manager.set_active_buffer(Some(4), true);
    let effects = manager.discovery_finished(4, &tests_named(&["alpha"]));
    assert_eq!(effects.events, vec![TestRunEvent::DiscoveryUpdated]);
    let request = manager.run_test_at(0, true).unwrap();
    assert_eq!(request.kind, RunKind::SingleTest);
    assert_eq!(request.buffer, 4);
    assert_eq!(names(&request.targets), vec!["alpha"]);
    let request = manager.run_file(true).unwrap();
    assert_eq!(request.kind, RunKind::File);
}

#[test]
fn runs_are_not_asked_for_without_buffer_test_or_adapter() {
    let mut manager = manager_with(&["alpha", "beta"]);
    manager.set_error(RunError::NoTests);
    assert!(manager.run_test_at(2, true).is_none());
    assert!(manager.run_test_at(0, false).is_none());
    assert!(manager.run_file(false).is_none());
    assert_eq!(manager.error().unwrap(), "no tests to run");
    assert!(manager.run_file(true).is_some());
    assert_eq!(manager.error(), None);
    manager.discovery_finished(1, &Vec::new());
    assert!(manager.run_file(true).is_none());
    manager.discovery_finished(1, &vec![runnable("alpha", &["python-test"])]);
    assert!(manager.discovered_tests().is_empty());
    assert!(manager.run_file(true).is_none());
    assert!(manager.run_test_at(0, true).is_none());
    assert!(manager.adapter_for_tag("python-test").is_none());
    assert!(manager.adapter_for_tag("rust-test").is_some());
}

#[test]
fn taking_up_a_run_kills_what_runs() {
    let mut manager = running(&["alpha", "beta"]);
    manager.parse_current_output("test alpha ... ok\n");
    assert!(manager.is_running(Some(TaskStatus::Running)));
    assert!(!manager.is_running(Some(TaskStatus::Ended)));
    assert!(!manager.is_running(None));
    assert_eq!(manager.stop(Some(TaskStatus::Running)), Some(7));
    assert_eq!(manager.stop(Some(TaskStatus::Ended)), None);
    let kill = manager.execute(&prepared(&["gamma"]), Some(TaskStatus::Running));
    assert_eq!(kill, Some(7));
    assert_eq!(manager.status("alpha"), TestStatus::Passed);
    assert_eq!(manager.status("beta"), TestStatus::NotRun);
    assert_eq!(names(&manager.rerun().unwrap().targets), vec!["gamma"]);
}

#[test]
fn starting_a_run_marks_its_targets() {
    let mut manager = manager_with(&["alpha", "beta", "gamma"]);
    let run = prepared(&["alpha", "beta"]);
    assert_eq!(manager.execute(&run, None), None);
    let effects = manager.run_started(run, 9);
    assert_eq!(
        effects.events,
        vec![
            TestRunEvent::TestStarted("alpha".to_string()),
            TestRunEvent::TestStarted("beta".to_string()),
            TestRunEvent::RunStarted,
        ]
    );
    assert!(effects.notify);
    assert_eq!(manager.status("alpha"), TestStatus::Running);
    assert_eq!(manager.status("beta"), TestStatus::Running);
    assert_eq!(manager.status("gamma"), TestStatus::NotRun);
    assert_eq!(manager.run_terminal(), Some(9));
}

#[test]
fn output_updates_targets_and_is_told_once() {
    let mut manager = running(&["alpha", "beta", "gamma"]);
    let output = "test tests::alpha ... ok\ntest other ... ok\ntest tests::beta ... FAILED\ntest gamma ... ignored\n";
    let effects = manager.parse_current_output(output);
    assert_eq!(
        effects.events,
        vec![
            TestRunEvent::TestPassed("alpha".to_string()),
            TestRunEvent::TestFailed("beta".to_string()),
        ]
    );
    assert!(effects.notify);
    assert_eq!(manager.status("alpha"), TestStatus::Passed);
    assert_eq!(manager.status("beta"), TestStatus::Failed);
    assert_eq!(manager.status("gamma"), TestStatus::Ignored);
    assert_eq!(manager.status("other"), TestStatus::NotRun);
    let again = manager.parse_current_output(output);
    assert!(again.events.is_empty());
    assert!(!again.notify);
    assert_eq!(manager.status("beta"), TestStatus::Failed);
}

#[test]
fn output_without_a_run_is_passed_over() {
    let mut manager = manager_with(&["alpha"]);
    let effects = manager.parse_current_output("test alpha ... ok\n");
    assert!(effects.events.is_empty());
    assert!(!effects.notify);
    assert_eq!(manager.status("alpha"), TestStatus::NotRun);
}

#[test]
fn the_last_of_several_results_counts() {
    let mut manager = running(&["alpha", "beta"]);
    let output =
        "test a::alpha ... ok\ntest beta ... ok\ntest b::alpha ... FAILED\ntest b::beta ... ok\n";
    let effects = manager.parse_current_output(output);
    assert_eq!(
        effects.events,
        vec![
            TestRunEvent::TestPassed("beta".to_string()),
            TestRunEvent::TestFailed("alpha".to_string()),
            TestRunEvent::TestPassed("beta".to_string()),
        ]
    );
    assert_eq!(manager.status("alpha"), TestStatus::Failed);
    let again = manager.parse_current_output(output);
    assert!(again.events.is_empty());
    assert!(!again.notify);
    assert_eq!(manager.status("alpha"), TestStatus::Failed);
    let end = manager.finish_run(output, Some(false));
    assert_eq!(end.events, vec![TestRunEvent::RunFinished { success: false }]);
    assert_eq!(manager.status("alpha"), TestStatus::Failed);
}

#[test]
fn repeated_results_are_told_again() {
    let mut manager = running(&["alpha"]);
    let effects = manager.parse_current_output("test a::alpha ... ok\ntest b::alpha ... ok\n");
    assert_eq!(
        effects.events,
        vec![
            TestRunEvent::TestPassed("alpha".to_string()),
            TestRunEvent::TestPassed("alpha".to_string()),
        ]
    );
}

#[test]
fn a_last_result_that_is_known_tells_nothing() {
    let mut manager = running(&["alpha"]);
    manager.parse_current_output("test alpha ... ok\n");
    let effects =
        manager.parse_current_output("test alpha ... ok\ntest alpha ... FAILED\ntest alpha ... ok\n");
    assert!(effects.events.is_empty());
    assert!(!effects.notify);
    assert_eq!(manager.status("alpha"), TestStatus::Passed);
}

#[test]
fn the_exit_status_tells_for_a_single_test() {
    for (exit, status, success) in [
        (Some(true), TestStatus::Passed, true),
        (Some(false), TestStatus::Failed, false),
        (None, TestStatus::Failed, false),
    ] {
        let mut manager = running(&["alpha"]);
        let effects = manager.finish_run("nothing to read here\n", exit);
        assert_eq!(manager.status("alpha"), status);
        let told = if success {
            TestRunEvent::TestPassed("alpha".to_string())
        } else {
            TestRunEvent::TestFailed("alpha".to_string())
        };
        assert_eq!(effects.events, vec![told, TestRunEvent::RunFinished { success }]);
        assert!(effects.notify);
    }
}

#[test]
fn reported_results_outweigh_the_exit_status() {
    let mut manager = running(&["alpha"]);
    let effects = manager.finish_run("test alpha ... ignored\n", Some(false));
    assert_eq!(manager.status("alpha"), TestStatus::Ignored);
    assert_eq!(effects.events, vec![TestRunEvent::RunFinished { success: false }]);
}

#[test]
fn unreported_tests_of_a_larger_run_count_as_not_run() {
    let mut manager = running(&["alpha", "beta"]);
    let effects = manager.finish_run("test alpha ... ok\n", Some(true));
    assert_eq!(manager.status("alpha"), TestStatus::Passed);
    assert_eq!(manager.status("beta"), TestStatus::NotRun);
    assert_eq!(
        effects.events,
        vec![
            TestRunEvent::TestPassed("alpha".to_string()),
            TestRunEvent::RunFinished { success: true },
        ]
    );
}

#[test]
fn the_end_is_told_even_without_a_run() {
    let mut manager = manager_with(&[]);
    let effects = manager.finish_run("", Some(true));
    assert_eq!(effects.events, vec![TestRunEvent::RunFinished { success: true }]);
    assert!(effects.notify);
}

#[test]
fn reruns_repeat_the_last_run() {
    let mut manager = manager_with(&["alpha"]);
    assert!(manager.rerun().is_none());
    manager.execute(&prepared(&["alpha"]), None);
    manager.set_error(RunError::Outside { message: "no shell".to_string() });
    assert_eq!(manager.error().unwrap(), "no shell");
    let run = manager.rerun().unwrap();
    assert_eq!(run.spawn.args, vec!["test"]);
    assert_eq!(manager.error(), None);
}

fn template(tags: &[&str]) -> TaskTemplate {
    TaskTemplate { tags: tags.iter().map(|tag| tag.to_string()).collect() }
}

fn request(targets: Vec<DiscoveredTest>) -> RunRequest<RustAdapter> {
    RunRequest { kind: RunKind::File, buffer: 5, targets, adapter: Arc::new(RustAdapter) }
}

fn message(step: ResolveStep<RustAdapter>) -> String {
    match step {
        ResolveStep::Failed { error } => error.message(),
        _ => panic!("expected a failure"),
    }
}

fn asked(
    step: ResolveStep<RustAdapter>,
) -> (test_runner::resolve::Resolution<RustAdapter>, ResolveRequest) {
    match step {
        ResolveStep::Ask { resolution, request } => (resolution, request),
        _ => panic!("expected a question"),
    }
}

#[test]
fn resolution_asks_in_order_and_prefers_plain_tests() {
    let mut plain = test("plain");
    plain.range = 30..40;
    plain.extra_captures.insert("_cfg".to_string(), "unix".to_string());
    let doc = test_with_tag("doc", "rust-doc-test");
    let (resolution, question) = asked(resolve(request(vec![doc, plain, test("last")])));
    assert!(matches!(question, ResolveRequest::ListTemplates { buffer: 5 }));
    let templates = vec![
        template(&["rust-doc-test"]),
        template(&["rust-bin", "rust-test"]),
        template(&["rust-test"]),
    ];
    let (resolution, question) =
        asked(resolution.advance(ResolveReply::Templates { templates: Some(templates) }));
    match question {
        ResolveRequest::BuildContext { template, variables, location } => {
            assert_eq!(template, 1);
            assert_eq!(variables.custom.get("_cfg"), Some(&"unix".to_string()));
            assert_eq!(variables.custom.entries().len(), 1);
            assert_eq!(location.buffer, 5);
            assert_eq!(location.range, 30..30);
        }
        _ => panic!("expected a question for the context"),
    }
    let (resolution, question) =
        asked(resolution.advance(ResolveReply::Context { found: true }));
    assert!(matches!(question, ResolveRequest::ResolveTemplate { template: 1 }));
    let reply = ResolveReply::Task { resolved: Some(spawn(&["test", "--nocapture", "plain"])) };
    match resolution.advance(reply) {
        ResolveStep::Ready { run } => {
            assert_eq!(names(&run.targets), vec!["plain", "doc", "last"]);
            assert_eq!(run.spawn.args, vec!["test", "plain", "doc", "last"]);
            assert_eq!(run.spawn.label, "cargo test (3 tests)");
        }
        _ => panic!("expected a prepared run"),
    }
}

#[test]
fn resolution_keeps_the_order_without_plain_tests() {
    let targets =
        vec![test_with_tag("one", "rust-doc-test"), test_with_tag("two", "rust-doc-test")];
    let (resolution, _) = asked(resolve(request(targets)));
    let step = resolution.advance(ResolveReply::Templates { templates: Some(Vec::new()) });
    assert_eq!(message(step), "no task template found for tag `rust-doc-test`");
}

#[test]
fn resolution_fails_with_its_reasons() {
    assert_eq!(message(resolve(request(Vec::new()))), "no tests to run");
    let begin = || asked(resolve(request(vec![test("alpha")]))).0;
    assert_eq!(
        message(begin().advance(ResolveReply::Templates { templates: None })),
        "project has no task inventory"
    );
    assert_eq!(
        message(begin().advance(ResolveReply::Templates {
            templates: Some(vec![template(&["rust-doc-test"]), template(&[])])
        })),
        "no task template found for tag `rust-test`"
    );
    assert_eq!(
        message(begin().advance(ResolveReply::Failed { message: "gone".to_string() })),
        "gone"
    );
    let placed = || {
        asked(begin().advance(ResolveReply::Templates {
            templates: Some(vec![template(&["rust-test"])]),
        }))
        .0
    };
    assert_eq!(
        message(placed().advance(ResolveReply::Context { found: false })),
        "no task context for the test's location"
    );
    let found = asked(placed().advance(ResolveReply::Context { found: true })).0;
    assert_eq!(
        message(found.advance(ResolveReply::Task { resolved: None })),
        "failed to resolve the test task template"
    );
}

fn resume(
    manager: &mut Manager,
    step: RunStep<RustAdapter>,
    event: RunEvent,
    status: Option<TaskStatus>,
) -> RunStep<RustAdapter> {
    manager.resume_run(step.task.unwrap(), event, status)
}

fn replied(reply: ResolveReply) -> RunEvent {
    RunEvent::Replied { reply }
}

#[test]
fn an_answered_run_goes_its_course() {
    let mut manager = running(&["old"]);
    manager.discovery_finished(1, &tests_named(&["alpha", "beta"]));
    let request = manager.run_file(true).unwrap();
    let status = Some(TaskStatus::Running);
    let step = manager.begin_run(request, status);
    assert!(matches!(
        step.action,
        RunAction::Ask { request: ResolveRequest::ListTemplates { buffer: 1 } }
    ));
    let templates = Some(vec![template(&["rust-test"])]);
    let step =
        resume(&mut manager, step, replied(ResolveReply::Templates { templates }), status);
    let step = resume(&mut manager, step, replied(ResolveReply::Context { found: true }), status);
    assert_eq!(manager.status("old"), TestStatus::Running);
    let resolved = Some(spawn(&["test", "--", "alpha"]));
    let step = resume(&mut manager, step, replied(ResolveReply::Task { resolved }), status);
    match &step.action {
        RunAction::Spawn { kill, spawn } => {
            assert_eq!(*kill, Some(7));
            assert_eq!(spawn.args, vec!["test", "--", "alpha", "beta"]);
        }
        _ => panic!("expected a command"),
    }
    assert_eq!(manager.status("old"), TestStatus::NotRun);
    assert_eq!(manager.status("alpha"), TestStatus::NotRun);
    let step = resume(&mut manager, step, RunEvent::TerminalStarted { terminal: 8 }, None);
    assert!(matches!(step.action, RunAction::AwaitCompletion { terminal: 8 }));
    assert_eq!(step.effects.events.len(), 3);
    assert_eq!(manager.status("alpha"), TestStatus::Running);
    manager.parse_current_output("test alpha ... ok\n");
    let completed = RunEvent::Completed {
        content: "test alpha ... ok\ntest beta ... FAILED\n".to_string(),
        exit_success: Some(false),
    };
    let step = resume(&mut manager, step, completed, Some(TaskStatus::Ended));
    assert!(step.task.is_none());
    assert!(matches!(step.action, RunAction::Nothing));
    assert_eq!(
        step.effects.events,
        vec![
            TestRunEvent::TestFailed("beta".to_string()),
            TestRunEvent::RunFinished { success: false },
        ]
    );
    assert_eq!(manager.status("alpha"), TestStatus::Passed);
    assert_eq!(manager.status("beta"), TestStatus::Failed);
    assert_eq!(names(&manager.rerun().unwrap().targets), vec!["alpha", "beta"]);
}

#[test]
fn a_refused_question_ends_the_run_and_leaves_the_one_before() {
    let mut manager = running(&["old"]);
    let request = request(vec![test("alpha")]);
    let step = manager.begin_run(request, Some(TaskStatus::Running));
    let reply = ResolveReply::Templates { templates: None };
    let step = resume(&mut manager, step, replied(reply), Some(TaskStatus::Running));
    assert!(step.task.is_none());
    assert!(step.effects.notify);
    assert!(step.effects.events.is_empty());
    assert_eq!(manager.error().unwrap(), "project has no task inventory");
    assert_eq!(manager.status("old"), TestStatus::Running);
    assert_eq!(names(&manager.rerun().unwrap().targets), vec!["old"]);
}

#[test]
fn a_terminal_that_does_not_start_ends_the_run() {
    let mut manager = manager_with(&["alpha"]);
    let step = manager.take_up_run(prepared(&["alpha"]), None);
    assert!(matches!(step.task, Some(RunTask::Starting { .. })));
    let failed = RunEvent::TerminalFailed { message: "no shell".to_string() };
    let step = resume(&mut manager, step, failed, None);
    assert!(step.task.is_none());
    assert_eq!(manager.error().unwrap(), "no shell");
    assert_eq!(manager.status("alpha"), TestStatus::NotRun);
    assert!(manager.has_last_run());
    assert_eq!(manager.run_terminal(), None);
}

#[test]
fn a_reported_name_goes_to_its_first_target() {
    let mut manager = running(&["beta", "a::alpha", "alpha"]);
    let effects = manager.parse_current_output("test a::alpha ... ok\n");
    assert_eq!(effects.events, vec![TestRunEvent::TestPassed("a::alpha".to_string())]);
    assert_eq!(manager.status("a::alpha"), TestStatus::Passed);
    assert_eq!(manager.status("alpha"), TestStatus::Running);
    assert_eq!(manager.status("beta"), TestStatus::Running);
}

#[test]
fn printed_results_become_statuses_of_their_targets() {
    let mut manager = running(&["lexer", "parser"]);
    let content = "running 2 tests\n  test tests::parser ... ignored, slow \r\ntest tests::lexer ... ok\n\ntest result: ok.\n";
    manager.parse_current_output(content);
    assert_eq!(manager.status("parser"), TestStatus::Ignored);
    assert_eq!(manager.status("lexer"), TestStatus::Passed);
    manager.finish_run(content, Some(false));
    assert_eq!(manager.status("parser"), TestStatus::Ignored);
    assert_eq!(manager.status("lexer"), TestStatus::Passed);
}

#[test]
fn replies_that_were_not_waited_for_end_the_resolution() {
    let begin = || asked(resolve(request(vec![test("alpha")]))).0;
    assert_eq!(
        message(begin().advance(ResolveReply::Context { found: true })),
        "project has no task inventory"
    );
    let placed = || {
        asked(begin().advance(ResolveReply::Templates {
            templates: Some(vec![template(&["rust-test"])]),
        }))
        .0
    };
    assert_eq!(
        message(placed().advance(ResolveReply::Task { resolved: Some(spawn(&["test"])) })),
        "no task context for the test's location"
    );
    let found = asked(placed().advance(ResolveReply::Context { found: true })).0;
    assert_eq!(
        message(found.advance(ResolveReply::Templates { templates: None })),
        "failed to resolve the test task template"
    );
}

#[test]
fn events_out_of_turn_end_the_run_alone() {
    let mut manager = running(&["alpha"]);
    let completed =
        || RunEvent::Completed { content: "test alpha ... ok\n".to_string(), exit_success: None };
    let step = manager.begin_run(request(vec![test("beta")]), None);
    let step = resume(&mut manager, step, completed(), None);
    assert!(step.task.is_none());
    assert!(matches!(step.action, RunAction::Nothing));
    assert!(step.effects.events.is_empty());
    assert!(!step.effects.notify);
    assert_eq!(manager.status("alpha"), TestStatus::Running);
    assert_eq!(manager.error(), None);
}

#[test]
fn adapters_of_different_types_can_stand_side_by_side() {
    let adapters: Vec<Arc<dyn TestAdapter>> = vec![Arc::new(RustAdapter), Arc::new(RustAdapter)];
    let mut manager: TestRunnerManager<dyn TestAdapter> = TestRunnerManager::new(adapters);
    manager.set_active_buffer(Some(1), true);
    manager.discovery_finished(1, &tests_named(&["alpha"]));
    let request = manager.run_test_at(0, true).unwrap();
    assert_eq!(request.adapter.name(), "rust");
    let run = PreparedRun {
        spawn: spawn(&["test"]),
        targets: request.targets,
        adapter: request.adapter,
    };
    manager.execute(&run, None);
    manager.run_started(run, 7);
    manager.parse_current_output("test tests::alpha ... ok\n");
    assert_eq!(manager.status("alpha"), TestStatus::Passed);
}

#[test]
fn reruns_start_the_same_command() {
    let mut manager = manager_with(&["alpha"]);
    let mut run = prepared(&["alpha"]);
    run.spawn.command = 42;
    let step = manager.take_up_run(run, None);
    let step = resume(&mut manager, step, RunEvent::TerminalStarted { terminal: 8 }, None);
    let completed = RunEvent::Completed { content: String::new(), exit_success: Some(true) };
    resume(&mut manager, step, completed, Some(TaskStatus::Ended));
    manager.set_active_buffer(Some(2), true);
    manager.discovery_finished(2, &tests_named(&["beta"]));
    manager.set_error(RunError::NoInventory);
    let again = manager.rerun().unwrap();
    match manager.take_up_run(again, Some(TaskStatus::Ended)).action {
        RunAction::Spawn { kill, spawn } => {
            assert_eq!(kill, None);
            assert_eq!(spawn.command, 42);
            assert_eq!(spawn.args, vec!["test"]);
        }
        _ => panic!("expected a command"),
    }
}
