//! The manager: discovers tests in the active buffer, decides how they are run, and tracks
//! per-test results of the current run.

use std::sync::Arc;

use vstd::prelude::*;

use crate::adapter;
use crate::adapter::{DiscoveredTest, RunKind, TestAdapter, TestStatus};
use crate::discovery;
use crate::discovery::{discover, find_adapter, Runnable};
use crate::names::NameMap;
use crate::resolve::RunError;
use crate::run;
use crate::run::{
    BufferId, CurrentRun, Effects, EffectsView, PreparedRun, RunRequest, TaskStatus, TerminalId,
    TestRunEvent, TestRunEventView,
};
use crate::state;
use crate::state::ManagerView;

verus! {

/// The list of tests: the adapters that can run them, the buffer in which they are discovered,
/// and the tests that were discovered last.
struct TestList<A: TestAdapter + ?Sized> {
    adapters: Vec<Arc<A>>,
    buffer: Option<BufferId>,
    discovered: Vec<DiscoveredTest>,
}

impl<A: TestAdapter + ?Sized> TestList<A> {
    /// Each test can be run by an adapter, and without a buffer there is none.
    #[verifier::type_invariant]
    spec fn holds(self) -> bool {
        state::list_holds(self.adapters@, self.buffer, adapter::test_views(self.discovered@))
    }

    /// Points the list at a buffer, and keeps the tests until those of the buffer are known.
    fn point_at(&mut self, buffer: BufferId)
        ensures
            final(self).adapters == old(self).adapters,
            final(self).buffer == Some(buffer),
            final(self).discovered == old(self).discovered,
    {
        proof {
            use_type_invariant(&*self);
        }
        self.buffer = Some(buffer);
    }

    /// Empties the list, and points it at no buffer.
    fn clear(&mut self)
        ensures
            final(self).adapters == old(self).adapters,
            final(self).buffer is None,
            final(self).discovered@.len() == 0,
    {
        proof {
            use_type_invariant(&*self);
        }
        self.discovered = Vec::new();
        self.buffer = None;
    }

    /// Lists the tests among the runnables.
    fn fill(&mut self, runnables: &Vec<Runnable>)
        requires
            old(self).buffer is Some,
        ensures
            final(self).adapters == old(self).adapters,
            final(self).buffer == old(self).buffer,
            adapter::test_views(final(self).discovered@) == discovery::discovered_tests(
                old(self).adapters@,
                discovery::runnable_views(runnables@),
            ),
    {
        let tests = discover(&self.adapters, runnables);
        proof {
            discovery::lemma_discovered_tags(
                self.adapters@,
                discovery::runnable_views(runnables@),
            );
        }
        self.discovered = tests;
    }
}

/// Discovers tests in the active buffer, decides how they are executed through the task
/// infrastructure, and tracks per-test results of the current run.
pub struct TestRunnerManager<A: TestAdapter + ?Sized> {
    list: TestList<A>,
    statuses: NameMap<TestStatus>,
    current_run: Option<CurrentRun<A>>,
    last_run: Option<PreparedRun<A>>,
    error: Option<String>,
}

impl<A: TestAdapter + ?Sized> View for TestRunnerManager<A> {
    type V = ManagerView<A>;

    closed spec fn view(&self) -> ManagerView<A> {
        ManagerView {
            adapters: self.list.adapters@,
            buffer: self.list.buffer,
            discovered: adapter::test_views(self.list.discovered@),
            statuses: self.statuses@,
            current_run: match self.current_run {
                Some(run) => Some(run@),
                None => None,
            },
            last_run: match self.last_run {
                Some(run) => Some(run@),
                None => None,
            },
            error: match self.error {
                Some(error) => Some(error@),
                None => None,
            },
        }
    }
}

/// An optional value as an optional mathematical value.
pub open spec fn option_view<T: View>(value: Option<T>) -> Option<T::V> {
    match value {
        Some(value) => Some(value@),
        None => None,
    }
}

/// Names and statuses as mathematical values.
pub open spec fn update_views(updates: Seq<(String, TestStatus)>) -> Seq<state::StatusUpdate> {
    updates.map_values(|update: (String, TestStatus)| (update.0@, update.1))
}

/// Makes updates, and collects the events that they are worth.
fn record(
    statuses: &mut NameMap<TestStatus>,
    events: &mut Vec<TestRunEvent>,
    updates: &Vec<(String, TestStatus)>,
)
    ensures
        final(statuses)@ == state::updated(old(statuses)@, update_views(updates@)),
        run::event_views(final(events)@) == run::event_views(old(events)@) + state::update_events(
            update_views(updates@),
        ),
{
    let ghost views = update_views(updates@);
    let ghost known = statuses@;
    let ghost told = run::event_views(events@);
    let mut i: usize = 0;
    proof {
        assert(told =~= told + state::update_events(views.take(0)));
    }
    while i < updates.len()
        invariant
            i <= updates@.len(),
            views == update_views(updates@),
            statuses@ == state::updated(known, views.take(i as int)),
            run::event_views(events@) == told + state::update_events(views.take(i as int)),
        decreases updates@.len() - i,
    {
        let name = &updates[i].0;
        let status = updates[i].1;
        let ghost before = run::event_views(events@);
        proof {
            assert(views.take(i + 1).drop_last() == views.take(i as int));
            assert(views.take(i + 1).last() == (name@, status));
        }
        statuses.insert(name.clone(), status);
        match status {
            TestStatus::Passed => events.push(TestRunEvent::TestPassed(name.clone())),
            TestStatus::Failed => events.push(TestRunEvent::TestFailed(name.clone())),
            _ => {},
        }
        proof {
            match state::update_event(views[i as int]) {
                Some(event) => {
                    assert(run::event_views(events@) =~= before.push(event));
                    assert(run::event_views(events@) =~= told + state::update_events(
                        views.take(i + 1),
                    ));
                },
                None => {
                    assert(run::event_views(events@) =~= before);
                },
            }
        }
        i += 1;
    }
    proof {
        assert(views.take(updates@.len() as int) == views);
    }
}

/// The first target of a run that a reported name refers to.
fn find_target<A: TestAdapter + ?Sized>(run: &CurrentRun<A>, reported: &str) -> (r: Option<usize>)
    ensures
        match r {
            Some(i) => i < run.targets@.len() && state::matching_target_from(
                run.adapter,
                run@.targets,
                reported@,
                0,
            ) == Some(i as int),
            None => state::matching_target_from(run.adapter, run@.targets, reported@, 0) is None,
        },
{
    let ghost targets = run@.targets;
    let mut i: usize = 0;
    while i < run.targets.len()
        invariant
            i <= run.targets@.len(),
            targets == adapter::test_views(run.targets@),
            state::matching_target_from(run.adapter, targets, reported@, 0)
                == state::matching_target_from(run.adapter, targets, reported@, i as int),
        decreases run.targets@.len() - i,
    {
        if run.adapter.matches_test(run.targets[i].name.as_str(), reported) {
            return Some(i);
        }
        i += 1;
    }
    None
}

/// The last status that results give to each target.
fn last_statuses<A: TestAdapter + ?Sized>(
    run: &CurrentRun<A>,
    results: &Vec<(String, TestStatus)>,
) -> (r: NameMap<TestStatus>)
    ensures
        forall|name: Seq<char>| #[trigger]
            state::last_result(run@, adapter::result_views(results@), name) == (
            if r@.contains_key(name) {
                Some(r@[name])
            } else {
                None
            }),
{
    let ghost views = adapter::result_views(results@);
    let mut last: NameMap<TestStatus> = NameMap::new();
    let mut i: usize = 0;
    while i < results.len()
        invariant
            i <= results@.len(),
            views == adapter::result_views(results@),
            forall|name: Seq<char>| #[trigger]
                state::last_result(run@, views.take(i as int), name) == (if last@.contains_key(
                    name,
                ) {
                    Some(last@[name])
                } else {
                    None
                }),
        decreases results@.len() - i,
    {
        let status = results[i].1;
        let ghost known = last@;
        proof {
            assert(views.take(i + 1).drop_last() == views.take(i as int));
            assert(views.take(i + 1).last() == (results@[i as int].0@, status));
        }
        match find_target(run, results[i].0.as_str()) {
            Some(t) => last.insert(run.targets[t].name.clone(), status),
            None => {},
        }
        proof {
            assert forall|name: Seq<char>| #[trigger]
                state::last_result(run@, views.take(i + 1), name) == (if last@.contains_key(
                    name,
                ) {
                    Some(last@[name])
                } else {
                    None
                }) by {
                assert(state::last_result(run@, views.take(i as int), name) == (
                if known.contains_key(name) {
                    Some(known[name])
                } else {
                    None
                }));
            }
        }
        i += 1;
    }
    proof {
        assert(views.take(results@.len() as int) == views);
    }
    last
}

/// Whether a status stands under a name.
fn stands_under(statuses: &NameMap<TestStatus>, name: &str, status: TestStatus) -> (r: bool)
    ensures
        r == (statuses@.contains_key(name@) && statuses@[name@] == status),
{
    match statuses.get(name) {
        Some(known) => *known == status,
        None => false,
    }
}

/// The updates that the output of a run makes.
fn read_updates<A: TestAdapter + ?Sized>(
    run: &CurrentRun<A>,
    statuses: &NameMap<TestStatus>,
    content: &str,
) -> (r: Vec<(String, TestStatus)>)
    ensures
        update_views(r@) == state::result_updates(
            run@,
            statuses@,
            run.adapter.spec_results(content@),
        ),
{
    let results = run.adapter.parse_output(content);
    let last = last_statuses(run, &results);
    let ghost views = run.adapter.spec_results(content@);
    let ghost update = |result: (Seq<char>, TestStatus)|
        state::result_update(run@, statuses@, views, result);
    let mut updates: Vec<(String, TestStatus)> = Vec::new();
    let mut i: usize = 0;
    proof {
        assert(update_views(updates@) =~= views.take(0).filter_map(update));
    }
    while i < results.len()
        invariant
            i <= results@.len(),
            views == adapter::result_views(results@),
            update == (|result: (Seq<char>, TestStatus)|
                state::result_update(run@, statuses@, views, result)),
            forall|name: Seq<char>| #[trigger]
                state::last_result(run@, views, name) == (if last@.contains_key(name) {
                    Some(last@[name])
                } else {
                    None
                }),
            update_views(updates@) == views.take(i as int).filter_map(update),
        decreases results@.len() - i,
    {
        let status = results[i].1;
        let ghost before = update_views(updates@);
        proof {
            assert(views.take(i + 1).drop_last() == views.take(i as int));
            assert(views.take(i + 1).last() == (results@[i as int].0@, status));
        }
        match find_target(run, results[i].0.as_str()) {
            Some(t) => {
                let name = &run.targets[t].name;
                if stands_under(&last, name.as_str(), status) && !stands_under(
                    statuses,
                    name.as_str(),
                    status,
                ) {
                    updates.push((name.clone(), status));
                    proof {
                        assert(update_views(updates@) =~= before.push((name@, status)));
                    }
                }
            },
            None => {},
        }
        proof {
            assert(update_views(updates@) =~= views.take(i + 1).filter_map(update));
        }
        i += 1;
    }
    proof {
        assert(views.take(results@.len() as int) == views);
    }
    updates
}

/// The updates for the targets of a run when it ends.
fn end_updates<A: TestAdapter + ?Sized>(
    run: &CurrentRun<A>,
    statuses: &NameMap<TestStatus>,
    fallback: TestStatus,
) -> (r: Vec<(String, TestStatus)>)
    ensures
        update_views(r@) == run@.targets.filter_map(
            |target: adapter::DiscoveredTestView|
                state::unresolved_update(statuses@, fallback, target),
        ),
{
    let ghost targets = run@.targets;
    let ghost update = |target: adapter::DiscoveredTestView|
        state::unresolved_update(statuses@, fallback, target);
    let mut updates: Vec<(String, TestStatus)> = Vec::new();
    let mut i: usize = 0;
    proof {
        assert(update_views(updates@) =~= targets.take(0).filter_map(update));
    }
    while i < run.targets.len()
        invariant
            i <= run.targets@.len(),
            targets == adapter::test_views(run.targets@),
            update == (|target: adapter::DiscoveredTestView|
                state::unresolved_update(statuses@, fallback, target)),
            update_views(updates@) == targets.take(i as int).filter_map(update),
        decreases run.targets@.len() - i,
    {
        let name = &run.targets[i].name;
        let ghost before = update_views(updates@);
        proof {
            assert(targets.take(i + 1).drop_last() == targets.take(i as int));
            assert(targets.take(i + 1).last() == run.targets@[i as int]@);
        }
        let running = stands_under(statuses, name.as_str(), TestStatus::Running);
        if running {
            updates.push((name.clone(), fallback));
            proof {
                assert(update_views(updates@) =~= before.push((name@, fallback)));
            }
        }
        proof {
            assert(update_views(updates@) =~= targets.take(i + 1).filter_map(update));
        }
        i += 1;
    }
    proof {
        assert(targets.take(run.targets@.len() as int) == targets);
    }
    updates
}

/// What a change of the active buffer asks for.
pub enum BufferChange {
    /// The buffer is the one that was active already.
    Unchanged,
    /// Tests are to be discovered in this buffer, now and on every reparse.
    Discover { buffer: BufferId },
    /// There is no active buffer any more.
    Cleared { effects: Effects },
}

impl<A: TestAdapter + ?Sized> TestRunnerManager<A> {
    /// A manager that has seen nothing yet.
    pub fn new(adapters: Vec<Arc<A>>) -> (r: Self)
        ensures
            r@ == state::initial_state(adapters@),
    {
        let r = TestRunnerManager {
            list: TestList { adapters, buffer: None, discovered: Vec::new() },
            statuses: NameMap::new(),
            current_run: None,
            last_run: None,
            error: None,
        };
        proof {
            assert(r@ =~= state::initial_state(adapters@));
        }
        r
    }

    /// The adapters, in the order in which they are asked.
    pub fn adapters(&self) -> (r: &Vec<Arc<A>>)
        ensures
            r@ == self@.adapters,
    {
        &self.list.adapters
    }

    /// The tests that were discovered last: each can be run by an adapter, and without a buffer
    /// there is none.
    pub fn discovered_tests(&self) -> (r: &[DiscoveredTest])
        ensures
            adapter::test_views(r@) == self@.discovered,
            state::list_holds(self@.adapters, self@.buffer, self@.discovered),
            forall|i: int|
                0 <= i < r@.len() ==> discovery::first_adapter(
                    self@.adapters,
                    (#[trigger] r@[i]).tag@,
                ) is Some,
    {
        proof {
            use_type_invariant(&self.list);
            assert forall|i: int| 0 <= i < self.list.discovered@.len() implies
                discovery::first_adapter(
                self@.adapters,
                (#[trigger] self.list.discovered@[i]).tag@,
            ) is Some by {
                assert(self@.discovered[i].tag == self.list.discovered@[i].tag@);
                discovery::lemma_first_adapter(self@.adapters, self@.discovered[i].tag);
            }
        }
        self.list.discovered.as_slice()
    }

    /// The status of a test.
    pub fn status(&self, name: &str) -> (r: TestStatus)
        ensures
            r == state::status_of(self@.statuses, name@),
    {
        match self.statuses.get(name) {
            Some(status) => *status,
            None => TestStatus::NotRun,
        }
    }

    /// The active buffer. `alive` says whether the buffer that the manager points at still
    /// exists.
    pub fn buffer(&self, alive: bool) -> (r: Option<BufferId>)
        ensures
            r == state::live_buffer(self@, alive),
    {
        if alive {
            self.list.buffer
        } else {
            None
        }
    }

    /// What went wrong with the last run.
    pub fn error(&self) -> (r: Option<&String>)
        ensures
            match r {
                Some(error) => self@.error == Some(error@),
                None => self@.error is None,
            },
    {
        self.error.as_ref()
    }

    /// The terminal of the current run.
    pub fn run_terminal(&self) -> (r: Option<TerminalId>)
        ensures
            match r {
                Some(terminal) => self@.current_run is Some && self@.current_run->0.terminal
                    == terminal,
                None => self@.current_run is None,
            },
    {
        match &self.current_run {
            Some(run) => Some(run.terminal),
            None => None,
        }
    }

    /// Whether there is a run to repeat.
    pub fn has_last_run(&self) -> (r: bool)
        ensures
            r == (self@.last_run is Some),
    {
        self.last_run.is_some()
    }

    /// Whether the current run is still running. `task` is what became of the task of its
    /// terminal, if the terminal has one.
    pub fn is_running(&self, task: Option<TaskStatus>) -> (r: bool)
        ensures
            r == (state::running_terminal(self@, task) is Some),
    {
        self.stop(task).is_some()
    }

    /// Points discovery at the given buffer; tests are (re)discovered on every
    /// reparse until another buffer becomes active. `alive` says whether the buffer that the
    /// manager pointed at still exists.
    pub fn set_active_buffer(&mut self, buffer: Option<BufferId>, alive: bool) -> (r: BufferChange)
        ensures
            final(self)@ == state::after_buffer_change(old(self)@, buffer, alive),
            match r {
                BufferChange::Unchanged => buffer == state::live_buffer(old(self)@, alive),
                BufferChange::Discover { buffer: discover } => buffer != state::live_buffer(
                    old(self)@,
                    alive,
                ) && buffer == Some(discover),
                BufferChange::Cleared { effects } => buffer != state::live_buffer(
                    old(self)@,
                    alive,
                ) && buffer is None && effects@ == (EffectsView {
                    events: seq![TestRunEventView::DiscoveryUpdated],
                    notify: true,
                }),
            },
    {
        let current = self.buffer(alive);
        match buffer {
            Some(id) => {
                if current.is_some() && current.unwrap() == id {
                    return BufferChange::Unchanged;
                }
                self.list.point_at(id);
                self.statuses.clear();
                BufferChange::Discover { buffer: id }
            },
            None => {
                if current.is_none() {
                    return BufferChange::Unchanged;
                }
                self.list.clear();
                self.statuses.clear();
                proof {
                    assert(self@.discovered =~= Seq::<adapter::DiscoveredTestView>::empty());
                }
                BufferChange::Cleared { effects: Effects::discovery_updated() }
            },
        }
    }

    /// Takes in the runnables that were found in a buffer, and lists the tests among them. What
    /// was found in a buffer that is not the active one any more is dropped.
    pub fn discovery_finished(&mut self, buffer: BufferId, runnables: &Vec<Runnable>) -> (r: Effects)
        ensures
            final(self)@ == state::after_discovery(
                old(self)@,
                buffer,
                discovery::runnable_views(runnables@),
            ),
            r@ == state::discovery_effects(old(self)@, buffer),
    {
        if self.list.buffer.is_none() || self.list.buffer.unwrap() != buffer {
            return Effects::none();
        }
        self.list.fill(runnables);
        proof {
            assert(self@ =~= state::after_discovery(
                old(self)@,
                buffer,
                discovery::runnable_views(runnables@),
            ));
        }
        Effects::discovery_updated()
    }

    /// Asks for a run of the test at a place in the list.
    pub fn run_test_at(&mut self, index: usize, alive: bool) -> (r: Option<RunRequest<A>>)
        ensures
            option_view(r) == state::requested_test(old(self)@, index as int, alive),
            final(self)@ == state::after_request(
                old(self)@,
                state::requested_test(old(self)@, index as int, alive),
            ),
            r is Some <==> index < old(self)@.discovered.len() && state::live_buffer(
                old(self)@,
                alive,
            ) is Some,
    {
        let tests = self.discovered_tests();
        if index >= tests.len() {
            return None;
        }
        let mut targets: Vec<DiscoveredTest> = Vec::new();
        targets.push(tests[index].clone());
        proof {
            assert(tests@[index as int]@ == self@.discovered[index as int]);
            assert(adapter::test_views(targets@) =~= seq![self@.discovered[index as int]]);
        }
        self.start_run(RunKind::SingleTest, targets, alive)
    }

    /// Asks for a run of all the tests.
    pub fn run_file(&mut self, alive: bool) -> (r: Option<RunRequest<A>>)
        ensures
            option_view(r) == state::requested_run(
                old(self)@,
                RunKind::File,
                old(self)@.discovered,
                alive,
            ),
            final(self)@ == state::after_request(
                old(self)@,
                state::requested_run(old(self)@, RunKind::File, old(self)@.discovered, alive),
            ),
            r is Some <==> old(self)@.discovered.len() > 0 && state::live_buffer(
                old(self)@,
                alive,
            ) is Some,
    {
        let tests = self.discovered_tests();
        proof {
            if tests@.len() > 0 {
                assert(tests@[0]@ == self@.discovered[0]);
            }
        }
        let targets = adapter::clone_tests(tests);
        self.start_run(RunKind::File, targets, alive)
    }

    /// Asks for the last run once more.
    pub fn rerun(&mut self) -> (r: Option<PreparedRun<A>>)
        ensures
            option_view(r) == old(self)@.last_run,
            final(self)@ == state::after_rerun(old(self)@),
    {
        let run = match &self.last_run {
            Some(run) => run.clone(),
            None => return None,
        };
        self.error = None;
        Some(run)
    }

    /// The terminal whose task is to be killed. `task` is what became of the task of the current
    /// run's terminal, if the terminal has one.
    pub fn stop(&self, task: Option<TaskStatus>) -> (r: Option<TerminalId>)
        ensures
            r == state::running_terminal(self@, task),
    {
        match (&self.current_run, task) {
            (Some(run), Some(TaskStatus::Running)) => Some(run.terminal),
            _ => None,
        }
    }

    /// The first adapter for which a tag marks a test.
    pub fn adapter_for_tag(&self, tag: &str) -> (r: Option<Arc<A>>)
        ensures
            r == discovery::first_adapter(self@.adapters, tag@),
    {
        find_adapter(&self.list.adapters, tag)
    }

    /// Asks for a run of the targets, if there is a buffer, a target, and an adapter for the
    /// first target.
    fn start_run(&mut self, kind: RunKind, targets: Vec<DiscoveredTest>, alive: bool) -> (r: Option<
        RunRequest<A>,
    >)
        ensures
            option_view(r) == state::requested_run(
                old(self)@,
                kind,
                adapter::test_views(targets@),
                alive,
            ),
            final(self)@ == state::after_request(
                old(self)@,
                state::requested_run(old(self)@, kind, adapter::test_views(targets@), alive),
            ),
    {
        let buffer = match self.buffer(alive) {
            Some(buffer) => buffer,
            None => return None,
        };
        if targets.len() == 0 {
            return None;
        }
        let adapter = match self.adapter_for_tag(targets[0].tag.as_str()) {
            Some(adapter) => adapter,
            None => return None,
        };
        self.error = None;
        Some(RunRequest { kind, buffer, targets, adapter })
    }

    /// Takes up a run: no test counts as running any more, and the run is the one to repeat.
    /// Returns the terminal whose task is to be killed before the command of the run is started.
    /// `task` is what became of the task of the current run's terminal, if the terminal has one.
    pub fn execute(&mut self, run: &PreparedRun<A>, task: Option<TaskStatus>) -> (r: Option<
        TerminalId,
    >)
        ensures
            final(self)@ == state::after_execute(old(self)@, run@),
            r == state::running_terminal(old(self)@, task),
    {
        let terminal = self.stop(task);
        self.statuses.replace(TestStatus::Running, TestStatus::NotRun);
        self.last_run = Some(run.clone());
        terminal
    }

    /// Takes in that the terminal of a run was started: its targets are running.
    pub fn run_started(&mut self, run: PreparedRun<A>, terminal: TerminalId) -> (r: Effects)
        ensures
            final(self)@ == state::after_start(old(self)@, run@, terminal),
            r@ == (EffectsView { events: state::start_events(run@.targets), notify: true }),
    {
        let mut effects = Effects::none();
        let ghost targets = run@.targets;
        let ghost updates = state::started_updates(targets);
        let ghost known = self@;
        let ghost started = |target: adapter::DiscoveredTestView|
            TestRunEventView::TestStarted(target.name);
        let mut i: usize = 0;
        proof {
            assert(targets.take(0).map_values(started) =~= effects@.events);
        }
        while i < run.targets.len()
            invariant
                i <= run.targets@.len(),
                targets == adapter::test_views(run.targets@),
                updates == state::started_updates(targets),
                started == (|target: adapter::DiscoveredTestView|
                    TestRunEventView::TestStarted(target.name)),
                self@ == state::with_updates(known, updates.take(i as int)),
                effects@.events == targets.take(i as int).map_values(started),
            decreases run.targets@.len() - i,
        {
            let name = &run.targets[i].name;
            let ghost before = effects@.events;
            proof {
                assert(updates.take(i + 1).drop_last() == updates.take(i as int));
                assert(updates.take(i + 1).last() == (name@, TestStatus::Running));
            }
            self.statuses.insert(name.clone(), TestStatus::Running);
            effects.events.push(TestRunEvent::TestStarted(name.clone()));
            proof {
                assert(effects@.events =~= before.push(TestRunEventView::TestStarted(name@)));
                assert(targets.take(i + 1).map_values(started) =~= targets.take(
                    i as int,
                ).map_values(started).push(started(targets[i as int])));
            }
            i += 1;
        }
        let ghost before = effects@.events;
        effects.events.push(TestRunEvent::RunStarted);
        effects.notify = true;
        proof {
            assert(updates.take(run.targets@.len() as int) == updates);
            assert(targets.take(run.targets@.len() as int) == targets);
            assert(effects@.events =~= before.push(TestRunEventView::RunStarted));
        }
        self.current_run = Some(
            CurrentRun { terminal, adapter: run.adapter, targets: run.targets },
        );
        effects
    }

    /// Takes in that a run came to nothing.
    pub fn set_error(&mut self, error: RunError) -> (r: Effects)
        ensures
            final(self)@ == state::after_error(old(self)@, error@),
            r@ == (EffectsView { events: Seq::empty(), notify: true }),
    {
        self.error = Some(error.message());
        let mut effects = Effects::none();
        effects.notify = true;
        effects
    }

    /// Reads the output of the current run, and updates the statuses of its targets: the last
    /// result of a target counts.
    pub fn parse_current_output(&mut self, content: &str) -> (r: Effects)
        ensures
            final(self)@ == state::after_output(old(self)@, content@),
            r@ == (EffectsView {
                events: state::update_events(state::output_updates(old(self)@, content@)),
                notify: state::output_updates(old(self)@, content@).len() > 0,
            }),
    {
        let run = match &self.current_run {
            Some(run) => run,
            None => return Effects::none(),
        };
        // Re-parsing the full output on every wakeup is O(output size), but it
        // is idempotent and immune to terminal grid reflows; test output is
        // small enough that incremental parsing isn't worth the fragility.
        let updates = read_updates(run, &self.statuses, content);
        if updates.len() == 0 {
            return Effects::none();
        }
        let mut effects = Effects::none();
        record(&mut self.statuses, &mut effects.events, &updates);
        effects.notify = true;
        effects
    }

    /// Takes in that the current run ended: reads its output once more, and settles the targets
    /// that the output did not speak of.
    pub fn finish_run(&mut self, content: &str, exit_success: Option<bool>) -> (r: Effects)
        ensures
            final(self)@ == state::after_finish(
                old(self)@,
                content@,
                exit_success == Some(true),
            ),
            r@ == (EffectsView {
                events: state::finish_events(old(self)@, content@, exit_success == Some(true)),
                notify: true,
            }),
    {
        let mut effects = self.parse_current_output(content);
        let success = match exit_success {
            Some(success) => success,
            None => false,
        };
        let ghost read = self@;
        let ghost told = effects@.events;
        match &self.current_run {
            Some(run) => {
                // Exit status is the only signal for tests whose result lines could
                // not be parsed (e.g. doc-tests), and it's only unambiguous when a
                // single test was targeted.
                let fallback = if run.targets.len() == 1 {
                    if success {
                        TestStatus::Passed
                    } else {
                        TestStatus::Failed
                    }
                } else {
                    TestStatus::NotRun
                };
                let updates = end_updates(run, &self.statuses, fallback);
                record(&mut self.statuses, &mut effects.events, &updates);
            },
            None => {},
        }
        let ghost settled = run::event_views(effects.events@);
        effects.events.push(TestRunEvent::RunFinished { success });
        effects.notify = true;
        proof {
            assert(settled =~= told + state::update_events(
                state::unresolved_updates(read, success),
            ));
            assert(effects@.events =~= settled.push(TestRunEventView::RunFinished { success }));
        }
        effects
    }
}

} // verus!
