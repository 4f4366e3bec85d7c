//! What a test is, what can come of it, and what a language brings to run tests.

use std::ops::Range;

use vstd::prelude::*;

use crate::names::NameMap;

verus! {

/// What a test run targets, which controls how the adapter shapes the command.
#[derive(Debug, Clone, Copy, PartialEq, Eq, Structural)]
pub enum RunKind {
    SingleTest,
    File,
}

/// Outcome of a single test.
#[derive(Debug, Clone, Copy, PartialEq, Eq, Structural)]
pub enum TestStatus {
    NotRun,
    Running,
    Passed,
    Failed,
    Ignored,
}

impl Default for TestStatus {
    fn default() -> (r: Self)
        ensures
            r == TestStatus::NotRun,
    {
        TestStatus::NotRun
    }
}

impl View for TestStatus {
    type V = TestStatus;

    open spec fn view(&self) -> TestStatus {
        *self
    }
}

/// A place in a buffer, under the number that the owner of the buffer gave it.
pub type Anchor = u64;

/// A test discovered in a buffer through the language's runnable tags.
#[derive(Debug)]
pub struct DiscoveredTest {
    /// Test name as written in the source, e.g. the test function name.
    pub name: String,
    /// The runnable tag this test was discovered through, e.g. `rust-test`.
    pub tag: String,
    /// Position of the runnable in the buffer, for jumping to the source.
    pub range: Range<Anchor>,
    /// Extra captures of the runnable, fed into task context resolution.
    pub extra_captures: NameMap<String>,
}

/// A discovered test as a mathematical value.
pub struct DiscoveredTestView {
    pub name: Seq<char>,
    pub tag: Seq<char>,
    pub range: Range<Anchor>,
    pub extra_captures: Map<Seq<char>, Seq<char>>,
}

impl View for DiscoveredTest {
    type V = DiscoveredTestView;

    open spec fn view(&self) -> DiscoveredTestView {
        DiscoveredTestView {
            name: self.name@,
            tag: self.tag@,
            range: self.range,
            extra_captures: self.extra_captures@,
        }
    }
}

impl Clone for DiscoveredTest {
    fn clone(&self) -> (r: Self)
        ensures
            r@ == self@,
    {
        DiscoveredTest {
            name: self.name.clone(),
            tag: self.tag.clone(),
            range: Range { start: self.range.start, end: self.range.end },
            extra_captures: self.extra_captures.clone(),
        }
    }
}

/// Tests as mathematical values.
pub open spec fn test_views(tests: Seq<DiscoveredTest>) -> Seq<DiscoveredTestView> {
    tests.map_values(|test: DiscoveredTest| test@)
}

/// Copies a list of tests.
pub fn clone_tests(tests: &[DiscoveredTest]) -> (r: Vec<DiscoveredTest>)
    ensures
        test_views(r@) == test_views(tests@),
{
    let mut r: Vec<DiscoveredTest> = Vec::new();
    let mut i: usize = 0;
    while i < tests.len()
        invariant
            i <= tests@.len(),
            r@.len() == i,
            forall|j: int| 0 <= j < i ==> (#[trigger] r@[j])@ == tests@[j]@,
        decreases tests@.len() - i,
    {
        r.push(tests[i].clone());
        i += 1;
    }
    proof {
        assert(test_views(r@) =~= test_views(tests@));
    }
    r
}

/// The parts of a command that no adapter shapes (its program, directory and environment), under
/// the number that the editor gave them.
pub type CommandId = u64;

/// The command of a run.
#[derive(Debug)]
pub struct SpawnInTerminal {
    /// What is run, and where.
    pub command: CommandId,
    /// What the run is called where space is short.
    pub label: String,
    /// What the run is called in full.
    pub full_label: String,
    /// The arguments of the command.
    pub args: Vec<String>,
}

/// The command of a run as a mathematical value.
#[verifier::ext_equal]
pub struct SpawnView {
    pub command: CommandId,
    pub label: Seq<char>,
    pub full_label: Seq<char>,
    pub args: Seq<Seq<char>>,
}

/// Strings as sequences of characters.
pub open spec fn string_views(strings: Seq<String>) -> Seq<Seq<char>> {
    strings.map_values(|s: String| s@)
}

impl View for SpawnInTerminal {
    type V = SpawnView;

    open spec fn view(&self) -> SpawnView {
        SpawnView {
            command: self.command,
            label: self.label@,
            full_label: self.full_label@,
            args: string_views(self.args@),
        }
    }
}

impl Default for SpawnInTerminal {
    fn default() -> (r: Self)
        ensures
            r@ == (SpawnView {
                command: 0,
                label: Seq::empty(),
                full_label: Seq::empty(),
                args: Seq::empty(),
            }),
    {
        let r = SpawnInTerminal {
            command: 0,
            label: String::new(),
            full_label: String::new(),
            args: Vec::new(),
        };
        proof {
            assert(r@.args =~= Seq::<Seq<char>>::empty());
        }
        r
    }
}

impl Clone for SpawnInTerminal {
    fn clone(&self) -> (r: Self)
        ensures
            r@ == self@,
    {
        let mut args: Vec<String> = Vec::new();
        let mut i: usize = 0;
        while i < self.args.len()
            invariant
                i <= self.args@.len(),
                args@ == self.args@.take(i as int),
            decreases self.args@.len() - i,
        {
            args.push(self.args[i].clone());
            i += 1;
        }
        SpawnInTerminal {
            command: self.command,
            label: self.label.clone(),
            full_label: self.full_label.clone(),
            args,
        }
    }
}

/// Static strings as sequences of characters.
pub open spec fn tag_views(tags: Seq<&'static str>) -> Seq<Seq<char>> {
    tags.map_values(|tag: &'static str| tag@)
}

/// Results as mathematical values: what was reported, and with what outcome.
pub open spec fn result_views(results: Seq<(String, TestStatus)>) -> Seq<(Seq<char>, TestStatus)> {
    results.map_values(|result: (String, TestStatus)| (result.0@, result.1))
}

/// Language-specific test running logic: which runnables are tests, how to
/// shape a task command for a run, and how to interpret the runner's output.
///
/// Everything else (discovery mechanics, task resolution, process management,
/// state, UI) is language-agnostic and lives outside the adapter.
pub trait TestAdapter: Send + Sync {
    /// What `name` returns.
    spec fn spec_name(&self) -> Seq<char>;

    /// What `test_tags` returns.
    spec fn spec_tags(&self) -> Seq<Seq<char>>;

    /// What `prepare_run` makes of a command.
    spec fn spec_prepare(
        &self,
        kind: RunKind,
        targets: Seq<DiscoveredTestView>,
        base: SpawnView,
    ) -> SpawnView;

    /// The results that `parse_output` reads in an output.
    spec fn spec_results(&self, output: Seq<char>) -> Seq<(Seq<char>, TestStatus)>;

    /// Whether `matches_test` holds of two names.
    spec fn spec_matches(&self, discovered: Seq<char>, reported: Seq<char>) -> bool;

    fn name(&self) -> (r: &'static str)
        ensures
            r@ == self.spec_name(),
    ;

    /// Runnable tags that mark individual tests. The first tag is the preferred
    /// one to resolve multi-test runs through, so it must identify a plain test
    /// function.
    fn test_tags(&self) -> (r: &'static [&'static str])
        ensures
            tag_views(r@) == self.spec_tags(),
    ;

    /// Shape the resolved task command for the given run.
    /// `base` was resolved from `targets[0]`'s task template.
    fn prepare_run(
        &self,
        kind: RunKind,
        targets: &[DiscoveredTest],
        base: SpawnInTerminal,
    ) -> (r: SpawnInTerminal)
        ensures
            r@ == self.spec_prepare(kind, test_views(targets@), base@),
    ;

    /// Parse accumulated runner output into per-test results. Called with the
    /// full output every time more output arrives, so it must be idempotent.
    fn parse_output(&self, output: &str) -> (r: Vec<(String, TestStatus)>)
        ensures
            result_views(r@) == self.spec_results(output@),
    ;

    /// Whether a runner-reported test name refers to the given discovered test.
    fn matches_test(&self, discovered: &str, reported: &str) -> (r: bool)
        ensures
            r == self.spec_matches(discovered@, reported@),
    ;
}

} // verus!
